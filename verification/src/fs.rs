//! The Rood filesystem: a flat table of nodes, each naming its parent
//! directory by index, and its on-disk format of one 512-byte sector per
//! node behind a header sector.
//!
//! Sector 1 holds the header: the magic `ROOD` and the node count (u32,
//! little endian). Node `i` lives in sector `2 + i`:
//!
//! | bytes    | field                                   |
//! |----------|-----------------------------------------|
//! | 0        | type: 0 file, 1 directory               |
//! | 1..5     | parent index (u32 LE)                   |
//! | 5..9     | name length (u32 LE), at most 64        |
//! | 9..73    | name bytes                              |
//! | 73..77   | data length (u32 LE), at most 435       |
//! | 77..512  | data bytes                              |
//!
//! The table lives in memory; writing it to the disk is the caller's
//! part, through [`FileSystem::disk_image`], and reading it back goes
//! through [`decode_header`] and [`FileSystem::load`].
use crate::bytes::{bytes_eq, copy_bytes, le32_bytes, le32_decode, le32_value, lemma_le32_roundtrip};
use crate::drivers::ata::{ata_message, AtaError, SECTOR_SIZE};
use vstd::prelude::*;
use vstd::utf8::valid_utf8;

verus! {

pub const HEADER_SECTOR: u32 = 1;
pub const DATA_SECTOR: u32 = 2;
pub const MAX_NAME: usize = 64;
pub const MAX_DATA: usize = 435;

/// Offset of the name length in a node sector.
pub const NAME_LEN_AT: usize = 5;
/// Offset of the name bytes in a node sector.
pub const NAME_AT: usize = 9;
/// Offset of the data length in a node sector.
pub const DATA_LEN_AT: usize = 73;
/// Offset of the data bytes in a node sector.
pub const DATA_AT: usize = 77;

/// The magic bytes `ROOD` at the start of the header sector.
pub open spec fn magic() -> Seq<u8> {
    seq![82u8, 79u8, 79u8, 68u8]
}

/// The name of the root directory, `/`.
pub open spec fn root_name() -> Seq<u8> {
    seq![47u8]
}

/// The name that stands for the parent directory, `..`.
pub open spec fn parent_name() -> Seq<u8> {
    seq![46u8, 46u8]
}

/// The name a node gets back from the disk when its stored name is not UTF-8, `?`.
pub open spec fn unknown_name() -> Seq<u8> {
    seq![63u8]
}

#[derive(PartialEq, Eq, Structural, Clone, Copy, Debug)]
pub enum NodeType {
    File,
    Dir,
}

/// A file or a directory.
pub struct Node {
    pub name: Vec<u8>,
    pub node_type: NodeType,
    pub data: Vec<u8>,
    /// Index of the directory that holds this node.
    pub parent: usize,
}

/// A node as a mathematical value.
pub struct NodeView {
    pub name: Seq<u8>,
    pub node_type: NodeType,
    pub data: Seq<u8>,
    pub parent: usize,
}

impl View for Node {
    type V = NodeView;

    open spec fn view(&self) -> NodeView {
        NodeView { name: self.name@, node_type: self.node_type, data: self.data@, parent: self.parent }
    }
}

/// Why a filesystem operation was refused, or the disk error that stopped it.
#[derive(PartialEq, Eq, Structural, Clone, Copy, Debug)]
pub enum FsError {
    FileExists,
    DirectoryExists,
    FileNotFound,
    IsDirectory,
    CannotWriteDirectory,
    CannotReadDirectory,
    DirectoryNotFound,
    NotADirectory,
    Disk(AtaError),
}

/// The text the shell shows for an error.
pub open spec fn fs_message(e: FsError) -> &'static str {
    match e {
        FsError::FileExists => "File already exists",
        FsError::DirectoryExists => "Directory already exists",
        FsError::FileNotFound => "File not found",
        FsError::IsDirectory => "Use rmdir to remove directories",
        FsError::CannotWriteDirectory => "Cannot write to directory",
        FsError::CannotReadDirectory => "Cannot read directory",
        FsError::DirectoryNotFound => "Directory not found",
        FsError::NotADirectory => "Not a directory",
        FsError::Disk(e) => ata_message(e),
    }
}

impl FsError {
    /// The text the shell shows for this error.
    pub fn message(&self) -> (r: &'static str)
        ensures
            r == fs_message(*self),
    {
        match self {
            FsError::FileExists => "File already exists",
            FsError::DirectoryExists => "Directory already exists",
            FsError::FileNotFound => "File not found",
            FsError::IsDirectory => "Use rmdir to remove directories",
            FsError::CannotWriteDirectory => "Cannot write to directory",
            FsError::CannotReadDirectory => "Cannot read directory",
            FsError::DirectoryNotFound => "Directory not found",
            FsError::NotADirectory => "Not a directory",
            FsError::Disk(e) => e.message(),
        }
    }
}

/// The node table and the current directory.
pub struct FileSystem {
    nodes: Vec<Node>,
    cwd: usize,
}

/// A filesystem as a mathematical value.
pub struct FsView {
    pub nodes: Seq<NodeView>,
    pub cwd: usize,
}

impl View for FileSystem {
    type V = FsView;

    closed spec fn view(&self) -> FsView {
        FsView { nodes: self.nodes@.map_values(|n: Node| n@), cwd: self.cwd }
    }
}

/// Whether `n` is the entry called `name` in directory `dir`.
pub open spec fn is_entry(n: NodeView, dir: usize, name: Seq<u8>) -> bool {
    n.parent == dir && n.name == name
}

/// Whether the current directory has an entry called `name`.
pub open spec fn has_entry(fs: FsView, name: Seq<u8>) -> bool {
    exists|i: int| 0 <= i < fs.nodes.len() && is_entry(#[trigger] fs.nodes[i], fs.cwd, name)
}

/// Whether `i` is the first node that is the entry called `name` in the current directory.
pub open spec fn is_first_entry(fs: FsView, name: Seq<u8>, i: int) -> bool {
    &&& 0 <= i < fs.nodes.len()
    &&& is_entry(fs.nodes[i], fs.cwd, name)
    &&& forall|j: int| 0 <= j < i ==> !is_entry(#[trigger] fs.nodes[j], fs.cwd, name)
}

/// The node that `create_file` or `create_dir` adds.
pub open spec fn new_node(name: Seq<u8>, node_type: NodeType, parent: usize) -> NodeView {
    NodeView { name, node_type, data: Seq::empty(), parent }
}

/// What `list` shows of the first `nodes.len()` nodes: the name and whether
/// it is a directory, of each node in directory `dir` that is not named `/`.
pub open spec fn listing(nodes: Seq<NodeView>, dir: usize) -> Seq<(Seq<u8>, bool)>
    decreases nodes.len(),
{
    if nodes.len() == 0 {
        Seq::empty()
    } else {
        let rest = listing(nodes.drop_last(), dir);
        let n = nodes.last();
        if n.parent == dir && n.name != root_name() {
            rest.push((n.name, n.node_type == NodeType::Dir))
        } else {
            rest
        }
    }
}

/// Whether the bytes are valid UTF-8. Calls `core::str::from_utf8`, which
/// its documentation says fails exactly when the slice is not UTF-8; the
/// contract claims that it succeeds exactly on the well-formed encodings
/// of `valid_utf8` (no overlong forms, no surrogates, nothing above
/// U+10FFFF).
#[verifier::external_body]
fn is_utf8(bytes: &[u8]) -> (r: bool)
    ensures
        r == valid_utf8(bytes@),
{
    core::str::from_utf8(bytes).is_ok()
}

impl FileSystem {
    /// The filesystem with no nodes, in directory 0.
    pub fn new() -> (fs: Self)
        ensures
            fs@.nodes == Seq::<NodeView>::empty(),
            fs@.cwd == 0,
    {
        let fs = FileSystem { nodes: Vec::new(), cwd: 0 };
        assert(fs@.nodes =~= Seq::<NodeView>::empty());
        fs
    }

    /// The filesystem made of the nodes read back from their sectors, in directory 0.
    pub fn load(sectors: &[[u8; SECTOR_SIZE]]) -> (fs: Self)
        ensures
            fs@.nodes.len() == sectors@.len(),
            forall|i: int| 0 <= i < sectors@.len() ==> #[trigger] fs@.nodes[i] == decoded_node(sectors@[i]@),
            fs@.cwd == 0,
    {
        let mut nodes: Vec<Node> = Vec::new();
        let mut i: usize = 0;
        while i < sectors.len()
            invariant
                i <= sectors@.len(),
                nodes@.len() == i,
                forall|k: int| 0 <= k < i ==> #[trigger] nodes@[k]@ == decoded_node(sectors@[k]@),
            decreases sectors@.len() - i,
        {
            let node = deserialize_node(&sectors[i]);
            nodes.push(node);
            i = i + 1;
        }
        FileSystem { nodes, cwd: 0 }
    }

    /// The number of nodes.
    pub fn node_count(&self) -> (r: usize)
        ensures
            r == self@.nodes.len(),
    {
        self.nodes.len()
    }

    /// Adds a root directory `/` (a directory named `/` whose parent is 0).
    pub fn add_root(&mut self)
        ensures
            final(self)@.nodes == old(self)@.nodes.push(new_node(root_name(), NodeType::Dir, 0)),
            final(self)@.cwd == old(self)@.cwd,
    {
        let mut name: Vec<u8> = Vec::new();
        name.push(47u8);
        assert(name@ =~= root_name());
        let ghost before = self@.nodes;
        self.nodes.push(Node { name, node_type: NodeType::Dir, data: Vec::new(), parent: 0 });
        assert(self@.nodes =~= before.push(new_node(root_name(), NodeType::Dir, 0)));
    }

    /// The index of the current directory.
    pub fn cwd(&self) -> (r: usize)
        ensures
            r == self@.cwd,
    {
        self.cwd
    }

    /// The name of the current directory.
    pub fn cwd_name(&self) -> (r: &[u8])
        requires
            self@.cwd < self@.nodes.len(),
        ensures
            r@ == self@.nodes[self@.cwd as int].name,
    {
        self.nodes[self.cwd].name.as_slice()
    }

    /// The first node of the current directory called `name`.
    pub fn find(&self, name: &[u8]) -> (r: Option<usize>)
        ensures
            match r {
                Some(i) => is_first_entry(self@, name@, i as int),
                None => !has_entry(self@, name@),
            },
    {
        let mut i: usize = 0;
        while i < self.nodes.len()
            invariant
                i <= self.nodes@.len(),
                forall|j: int| 0 <= j < i ==> !is_entry(#[trigger] self@.nodes[j], self@.cwd, name@),
            decreases self.nodes@.len() - i,
        {
            let node = &self.nodes[i];
            if node.parent == self.cwd && bytes_eq(node.name.as_slice(), name) {
                return Some(i);
            }
            i = i + 1;
        }
        None
    }

    fn create(&mut self, name: &[u8], node_type: NodeType, exists: FsError) -> (r: Result<(), FsError>)
        ensures
            has_entry(old(self)@, name@) ==> r == Err::<(), FsError>(exists) && final(self)@ == old(self)@,
            !has_entry(old(self)@, name@) ==> r is Ok && final(self)@.cwd == old(self)@.cwd
                && final(self)@.nodes == old(self)@.nodes.push(new_node(name@, node_type, old(self)@.cwd)),
    {
        if self.find(name).is_some() {
            return Err(exists);
        }
        let ghost before = self@.nodes;
        let node = Node { name: copy_bytes(name), node_type, data: Vec::new(), parent: self.cwd };
        self.nodes.push(node);
        assert(self@.nodes =~= before.push(new_node(name@, node_type, self@.cwd)));
        Ok(())
    }

    /// Adds an empty file `name` to the current directory, unless the
    /// directory already has an entry of that name.
    pub fn create_file(&mut self, name: &[u8]) -> (r: Result<(), FsError>)
        ensures
            has_entry(old(self)@, name@) ==> r == Err::<(), FsError>(FsError::FileExists) && final(self)@ == old(self)@,
            !has_entry(old(self)@, name@) ==> r is Ok && final(self)@.cwd == old(self)@.cwd
                && final(self)@.nodes == old(self)@.nodes.push(new_node(name@, NodeType::File, old(self)@.cwd)),
    {
        self.create(name, NodeType::File, FsError::FileExists)
    }

    /// Adds an empty directory `name` to the current directory, unless the
    /// directory already has an entry of that name.
    pub fn create_dir(&mut self, name: &[u8]) -> (r: Result<(), FsError>)
        ensures
            has_entry(old(self)@, name@) ==> r == Err::<(), FsError>(FsError::DirectoryExists) && final(self)@ == old(self)@,
            !has_entry(old(self)@, name@) ==> r is Ok && final(self)@.cwd == old(self)@.cwd
                && final(self)@.nodes == old(self)@.nodes.push(new_node(name@, NodeType::Dir, old(self)@.cwd)),
    {
        self.create(name, NodeType::Dir, FsError::DirectoryExists)
    }

    /// Removes the file `name` of the current directory. The nodes after it
    /// move down by one place; parent indices are left as they are.
    pub fn remove(&mut self, name: &[u8]) -> (r: Result<(), FsError>)
        ensures
            !has_entry(old(self)@, name@) ==> r == Err::<(), FsError>(FsError::FileNotFound) && final(self)@ == old(self)@,
            forall|i: int| #[trigger] is_first_entry(old(self)@, name@, i) ==> {
                if old(self)@.nodes[i].node_type == NodeType::Dir {
                    r == Err::<(), FsError>(FsError::IsDirectory) && final(self)@ == old(self)@
                } else {
                    r is Ok && final(self)@.cwd == old(self)@.cwd && final(self)@.nodes == old(self)@.nodes.remove(i)
                }
            },
    {
        match self.find(name) {
            None => Err(FsError::FileNotFound),
            Some(idx) => {
                if self.nodes[idx].node_type == NodeType::Dir {
                    return Err(FsError::IsDirectory);
                }
                let ghost before = self@.nodes;
                self.nodes.remove(idx);
                assert(self@.nodes =~= before.remove(idx as int));
                Ok(())
            },
        }
    }

    /// Replaces the contents of the file `name` of the current directory.
    pub fn write(&mut self, name: &[u8], data: &[u8]) -> (r: Result<(), FsError>)
        ensures
            !has_entry(old(self)@, name@) ==> r == Err::<(), FsError>(FsError::FileNotFound) && final(self)@ == old(self)@,
            forall|i: int| #[trigger] is_first_entry(old(self)@, name@, i) ==> {
                if old(self)@.nodes[i].node_type == NodeType::Dir {
                    r == Err::<(), FsError>(FsError::CannotWriteDirectory) && final(self)@ == old(self)@
                } else {
                    r is Ok && final(self)@.cwd == old(self)@.cwd && final(self)@.nodes == old(self)@.nodes.update(
                        i,
                        NodeView { data: data@, ..old(self)@.nodes[i] },
                    )
                }
            },
    {
        match self.find(name) {
            None => Err(FsError::FileNotFound),
            Some(idx) => {
                if self.nodes[idx].node_type == NodeType::Dir {
                    return Err(FsError::CannotWriteDirectory);
                }
                let ghost before = self@.nodes;
                let node = Node {
                    name: copy_bytes(self.nodes[idx].name.as_slice()),
                    node_type: self.nodes[idx].node_type,
                    data: copy_bytes(data),
                    parent: self.nodes[idx].parent,
                };
                self.nodes[idx] = node;
                assert(self@.nodes =~= before.update(idx as int, NodeView { data: data@, ..before[idx as int] }));
                Ok(())
            },
        }
    }

    /// The contents of the file `name` of the current directory.
    pub fn read(&self, name: &[u8]) -> (r: Result<&[u8], FsError>)
        ensures
            !has_entry(self@, name@) ==> r == Err::<&[u8], FsError>(FsError::FileNotFound),
            forall|i: int| #[trigger] is_first_entry(self@, name@, i) ==> {
                if self@.nodes[i].node_type == NodeType::Dir {
                    r == Err::<&[u8], FsError>(FsError::CannotReadDirectory)
                } else {
                    r is Ok && r->Ok_0@ == self@.nodes[i].data
                }
            },
    {
        match self.find(name) {
            None => Err(FsError::FileNotFound),
            Some(idx) => {
                if self.nodes[idx].node_type == NodeType::Dir {
                    return Err(FsError::CannotReadDirectory);
                }
                Ok(self.nodes[idx].data.as_slice())
            },
        }
    }

    /// Changes the current directory: `..` goes to the parent (and stays at
    /// node 0 there), any other name to the directory of that name.
    pub fn chdir(&mut self, name: &[u8]) -> (r: Result<(), FsError>)
        requires
            name@ == parent_name() && old(self)@.cwd != 0 ==> old(self)@.cwd < old(self)@.nodes.len(),
        ensures
            final(self)@.nodes == old(self)@.nodes,
            name@ == parent_name() ==> r is Ok && final(self)@.cwd == (if old(self)@.cwd == 0 {
                0
            } else {
                old(self)@.nodes[old(self)@.cwd as int].parent
            }),
            name@ != parent_name() && !has_entry(old(self)@, name@) ==> r == Err::<(), FsError>(FsError::DirectoryNotFound)
                && final(self)@ == old(self)@,
            name@ != parent_name() ==> forall|i: int| #[trigger] is_first_entry(old(self)@, name@, i) ==> {
                if old(self)@.nodes[i].node_type == NodeType::Dir {
                    r is Ok && final(self)@.cwd == i
                } else {
                    r == Err::<(), FsError>(FsError::NotADirectory) && final(self)@ == old(self)@
                }
            },
    {
        let dots: [u8; 2] = [46u8, 46u8];
        assert(dots@ =~= parent_name());
        if bytes_eq(name, dots.as_slice()) {
            if self.cwd != 0 {
                self.cwd = self.nodes[self.cwd].parent;
            }
            return Ok(());
        }
        match self.find(name) {
            None => Err(FsError::DirectoryNotFound),
            Some(idx) => {
                if self.nodes[idx].node_type != NodeType::Dir {
                    return Err(FsError::NotADirectory);
                }
                self.cwd = idx;
                Ok(())
            },
        }
    }

    /// The entries of the current directory: name, and whether it is a
    /// directory. Nodes named `/` are left out.
    pub fn list(&self) -> (r: Vec<(&[u8], bool)>)
        ensures
            r@.len() == listing(self@.nodes, self@.cwd).len(),
            forall|k: int| 0 <= k < r@.len() ==> (#[trigger] r@[k]).0@ == listing(self@.nodes, self@.cwd)[k].0
                && r@[k].1 == listing(self@.nodes, self@.cwd)[k].1,
    {
        let mut result: Vec<(&[u8], bool)> = Vec::new();
        let root: [u8; 1] = [47u8];
        assert(root@ =~= root_name());
        let mut i: usize = 0;
        while i < self.nodes.len()
            invariant
                i <= self.nodes@.len(),
                root@ == root_name(),
                result@.len() == listing(self@.nodes.take(i as int), self@.cwd).len(),
                forall|k: int| 0 <= k < result@.len() ==> (#[trigger] result@[k]).0@ == listing(
                    self@.nodes.take(i as int),
                    self@.cwd,
                )[k].0 && result@[k].1 == listing(self@.nodes.take(i as int), self@.cwd)[k].1,
            decreases self.nodes@.len() - i,
        {
            let node = &self.nodes[i];
            assert(self@.nodes.take(i + 1).drop_last() =~= self@.nodes.take(i as int));
            if node.parent == self.cwd && !bytes_eq(node.name.as_slice(), root.as_slice()) {
                result.push((node.name.as_slice(), node.node_type == NodeType::Dir));
            }
            i = i + 1;
        }
        assert(self@.nodes.take(self.nodes@.len() as int) =~= self@.nodes);
        result
    }

    /// The sectors that store this filesystem, each with its LBA: the
    /// header at sector 1, then node `i` at sector `2 + i`.
    pub fn disk_image(&self) -> (r: Vec<(u32, [u8; SECTOR_SIZE])>)
        requires
            self@.nodes.len() + 1 <= u32::MAX,
        ensures
            r@.len() == self@.nodes.len() + 1,
            r@[0].0 == HEADER_SECTOR,
            r@[0].1@ == header_sector(self@.nodes.len() as usize),
            forall|i: int| 0 <= i < self@.nodes.len() ==> (#[trigger] r@[i + 1]).0 == DATA_SECTOR + i
                && r@[i + 1].1@ == node_sector(self@.nodes[i]),
    {
        let mut r: Vec<(u32, [u8; SECTOR_SIZE])> = Vec::new();
        r.push((HEADER_SECTOR, encode_header(self.nodes.len())));
        let mut i: usize = 0;
        while i < self.nodes.len()
            invariant
                i <= self.nodes@.len(),
                self@.nodes.len() + 1 <= u32::MAX,
                r@.len() == i + 1,
                r@[0].0 == HEADER_SECTOR,
                r@[0].1@ == header_sector(self@.nodes.len() as usize),
                forall|k: int| 0 <= k < i ==> (#[trigger] r@[k + 1]).0 == DATA_SECTOR + k
                    && r@[k + 1].1@ == node_sector(self@.nodes[k]),
            decreases self.nodes@.len() - i,
        {
            let mut buf = [0u8; SECTOR_SIZE];
            serialize_node(&self.nodes[i], &mut buf);
            r.push((DATA_SECTOR + i as u32, buf));
            i = i + 1;
        }
        r
    }
}

pub open spec fn type_code(t: NodeType) -> u8 {
    match t {
        NodeType::File => 0,
        NodeType::Dir => 1,
    }
}

pub open spec fn clamp(n: int, max: int) -> int {
    if n < max {
        n
    } else {
        max
    }
}

/// The sector that stores node `n`. A name longer than 64 bytes and data
/// longer than 435 bytes are cut there; the parent index is stored modulo 2^32.
pub open spec fn node_sector(n: NodeView) -> Seq<u8> {
    let nl = clamp(n.name.len() as int, MAX_NAME as int);
    let dl = clamp(n.data.len() as int, MAX_DATA as int);
    let p = le32_bytes(n.parent as u32);
    let nlb = le32_bytes(nl as u32);
    let dlb = le32_bytes(dl as u32);
    Seq::new(
        SECTOR_SIZE as nat,
        |i: int|
            if i == 0 {
                type_code(n.node_type)
            } else if i < 5 {
                p[i - 1]
            } else if i < 9 {
                nlb[i - 5]
            } else if i < 9 + nl {
                n.name[i - 9]
            } else if 73 <= i < 77 {
                dlb[i - 73]
            } else if 77 <= i < 77 + dl {
                n.data[i - 77]
            } else {
                0
            },
    )
}

/// The node read back from a sector. A type byte other than 1 reads as a
/// file; lengths are cut to 64 and 435; a name that is not UTF-8 reads as `?`.
pub open spec fn decoded_node(s: Seq<u8>) -> NodeView {
    let nl = clamp(le32_value(s[5], s[6], s[7], s[8]), MAX_NAME as int);
    let dl = clamp(le32_value(s[73], s[74], s[75], s[76]), MAX_DATA as int);
    let raw = s.subrange(9, 9 + nl);
    NodeView {
        name: if valid_utf8(raw) {
            raw
        } else {
            unknown_name()
        },
        node_type: if s[0] == 1 {
            NodeType::Dir
        } else {
            NodeType::File
        },
        data: s.subrange(77, 77 + dl),
        parent: le32_value(s[1], s[2], s[3], s[4]) as usize,
    }
}

/// The header sector for a table of `count` nodes (stored modulo 2^32).
pub open spec fn header_sector(count: usize) -> Seq<u8> {
    let c = le32_bytes(count as u32);
    Seq::new(
        SECTOR_SIZE as nat,
        |i: int|
            if i < 4 {
                magic()[i]
            } else if i < 8 {
                c[i - 4]
            } else {
                0
            },
    )
}

/// The node count that a header sector records, if it starts with the magic.
pub open spec fn header_count(s: Seq<u8>) -> Option<usize> {
    if s.take(4) == magic() {
        Some(le32_value(s[4], s[5], s[6], s[7]) as usize)
    } else {
        None
    }
}

/// Writes `v` as four little-endian bytes at `at`.
fn put_le32(buf: &mut [u8; SECTOR_SIZE], at: usize, v: u32)
    requires
        at + 4 <= SECTOR_SIZE,
    ensures
        forall|k: int| 0 <= k < SECTOR_SIZE && !(at <= k < at + 4) ==> final(buf)@[k] == old(buf)@[k],
        forall|k: int| 0 <= k < 4 ==> final(buf)@[at + k] == #[trigger] le32_bytes(v)[k],
{
    buf[at] = (v & 0xFF) as u8;
    buf[at + 1] = ((v >> 8u32) & 0xFF) as u8;
    buf[at + 2] = ((v >> 16u32) & 0xFF) as u8;
    buf[at + 3] = ((v >> 24u32) & 0xFF) as u8;
}

/// Copies the first `len` bytes of `src` to `at`.
fn put_bytes(buf: &mut [u8; SECTOR_SIZE], at: usize, src: &[u8], len: usize)
    requires
        len <= src@.len(),
        at + len <= SECTOR_SIZE,
    ensures
        forall|k: int| 0 <= k < SECTOR_SIZE && !(at <= k < at + len) ==> final(buf)@[k] == old(buf)@[k],
        forall|k: int| 0 <= k < len ==> final(buf)@[at + k] == #[trigger] src@[k],
{
    let mut i: usize = 0;
    while i < len
        invariant
            i <= len,
            len <= src@.len(),
            at + len <= SECTOR_SIZE,
            forall|k: int| 0 <= k < SECTOR_SIZE && !(at <= k < at + i) ==> buf@[k] == old(buf)@[k],
            forall|k: int| 0 <= k < i ==> buf@[at + k] == #[trigger] src@[k],
        decreases len - i,
    {
        buf[at + i] = src[i];
        i = i + 1;
    }
}

/// Writes node `node` into the sector buffer `buf`.
pub fn serialize_node(node: &Node, buf: &mut [u8; SECTOR_SIZE])
    ensures
        final(buf)@ == node_sector(node@),
{
    let mut i: usize = 0;
    while i < SECTOR_SIZE
        invariant
            i <= SECTOR_SIZE,
            forall|k: int| 0 <= k < i ==> buf@[k] == 0,
        decreases SECTOR_SIZE - i,
    {
        buf[i] = 0;
        i = i + 1;
    }
    buf[0] = match node.node_type {
        NodeType::File => 0u8,
        NodeType::Dir => 1u8,
    };
    put_le32(buf, 1, node.parent as u32);
    let name_len: usize = if node.name.len() < MAX_NAME {
        node.name.len()
    } else {
        MAX_NAME
    };
    put_le32(buf, NAME_LEN_AT, name_len as u32);
    put_bytes(buf, NAME_AT, node.name.as_slice(), name_len);
    let data_len: usize = if node.data.len() < MAX_DATA {
        node.data.len()
    } else {
        MAX_DATA
    };
    put_le32(buf, DATA_LEN_AT, data_len as u32);
    put_bytes(buf, DATA_AT, node.data.as_slice(), data_len);
    assert(buf@ =~= node_sector(node@)) by {
        assert forall|k: int| 0 <= k < SECTOR_SIZE implies buf@[k] == node_sector(node@)[k] by {
            if 1 <= k < 5 {
                assert(buf@[1 + (k - 1)] == le32_bytes(node.parent as u32)[k - 1]);
            } else if 5 <= k < 9 {
                assert(buf@[5 + (k - 5)] == le32_bytes(name_len as u32)[k - 5]);
            } else if 9 <= k < 9 + name_len {
                assert(buf@[9 + (k - 9)] == node.name@[k - 9]);
            } else if 73 <= k < 77 {
                assert(buf@[73 + (k - 73)] == le32_bytes(data_len as u32)[k - 73]);
            } else if 77 <= k < 77 + data_len {
                assert(buf@[77 + (k - 77)] == node.data@[k - 77]);
            }
        }
    }
}

/// Copies `len` bytes of `buf` starting at `at` into a new vector.
fn take_bytes(buf: &[u8; SECTOR_SIZE], at: usize, len: usize) -> (v: Vec<u8>)
    requires
        at + len <= SECTOR_SIZE,
    ensures
        v@ == buf@.subrange(at as int, at + len),
{
    let mut v: Vec<u8> = Vec::new();
    let mut i: usize = 0;
    while i < len
        invariant
            i <= len,
            at + len <= SECTOR_SIZE,
            v@ == buf@.subrange(at as int, at + i),
        decreases len - i,
    {
        v.push(buf[at + i]);
        i = i + 1;
        assert(v@ =~= buf@.subrange(at as int, at + i));
    }
    v
}

/// Reads a node back from its sector.
pub fn deserialize_node(buf: &[u8; SECTOR_SIZE]) -> (n: Node)
    ensures
        n@ == decoded_node(buf@),
{
    let node_type = if buf[0] == 1 {
        NodeType::Dir
    } else {
        NodeType::File
    };
    let parent = le32_decode(buf[1], buf[2], buf[3], buf[4]) as usize;
    let stored_name_len = le32_decode(buf[5], buf[6], buf[7], buf[8]);
    let name_len: usize = if stored_name_len < MAX_NAME as u32 {
        stored_name_len as usize
    } else {
        MAX_NAME
    };
    let raw = take_bytes(buf, NAME_AT, name_len);
    let name = if is_utf8(raw.as_slice()) {
        raw
    } else {
        let mut q: Vec<u8> = Vec::new();
        q.push(63u8);
        assert(q@ =~= unknown_name());
        q
    };
    let stored_data_len = le32_decode(buf[73], buf[74], buf[75], buf[76]);
    let data_len: usize = if stored_data_len < MAX_DATA as u32 {
        stored_data_len as usize
    } else {
        MAX_DATA
    };
    let data = take_bytes(buf, DATA_AT, data_len);
    Node { name, node_type, data, parent }
}

/// The header sector for a table of `count` nodes.
pub fn encode_header(count: usize) -> (buf: [u8; SECTOR_SIZE])
    ensures
        buf@ == header_sector(count),
{
    let mut buf = [0u8; SECTOR_SIZE];
    buf[0] = 82;
    buf[1] = 79;
    buf[2] = 79;
    buf[3] = 68;
    put_le32(&mut buf, 4, count as u32);
    assert(buf@ =~= header_sector(count)) by {
        assert forall|k: int| 0 <= k < SECTOR_SIZE implies buf@[k] == header_sector(count)[k] by {
            if 4 <= k < 8 {
                assert(buf@[4 + (k - 4)] == le32_bytes(count as u32)[k - 4]);
            }
        }
    }
    buf
}

/// The node count recorded in a header sector, or `None` when the sector
/// does not start with the magic (the disk is not formatted).
pub fn decode_header(buf: &[u8; SECTOR_SIZE]) -> (r: Option<usize>)
    ensures
        r == header_count(buf@),
{
    if buf[0] == 82 && buf[1] == 79 && buf[2] == 79 && buf[3] == 68 {
        assert(buf@.take(4) =~= magic());
        Some(le32_decode(buf[4], buf[5], buf[6], buf[7]) as usize)
    } else {
        assert(buf@.take(4) != magic()) by {
            if buf@.take(4) == magic() {
                assert(buf@.take(4)[0] == buf@[0]);
                assert(buf@.take(4)[1] == buf@[1]);
                assert(buf@.take(4)[2] == buf@[2]);
                assert(buf@.take(4)[3] == buf@[3]);
            }
        }
        None
    }
}


/// A node that the on-disk format holds exactly: a UTF-8 name of at most
/// 64 bytes, at most 435 bytes of data, and a parent index below 2^32.
pub open spec fn storable(n: NodeView) -> bool {
    &&& n.name.len() <= MAX_NAME
    &&& valid_utf8(n.name)
    &&& n.data.len() <= MAX_DATA
    &&& n.parent <= u32::MAX
}

/// Reading a node back from the sector that stores it gives the node,
/// whenever the format can hold it.
pub proof fn lemma_node_roundtrip(n: NodeView)
    requires
        storable(n),
    ensures
        decoded_node(node_sector(n)) == n,
{
    let s = node_sector(n);
    let nl = n.name.len() as int;
    let dl = n.data.len() as int;
    lemma_le32_roundtrip(n.parent as u32);
    lemma_le32_roundtrip(nl as u32);
    lemma_le32_roundtrip(dl as u32);
    assert(s[1] == le32_bytes(n.parent as u32)[0] && s[2] == le32_bytes(n.parent as u32)[1]
        && s[3] == le32_bytes(n.parent as u32)[2] && s[4] == le32_bytes(n.parent as u32)[3]);
    assert(s[5] == le32_bytes(nl as u32)[0] && s[6] == le32_bytes(nl as u32)[1] && s[7] == le32_bytes(
        nl as u32,
    )[2] && s[8] == le32_bytes(nl as u32)[3]);
    assert(s[73] == le32_bytes(dl as u32)[0] && s[74] == le32_bytes(dl as u32)[1] && s[75]
        == le32_bytes(dl as u32)[2] && s[76] == le32_bytes(dl as u32)[3]);
    assert(s.subrange(9, 9 + nl) =~= n.name);
    assert(s.subrange(77, 77 + dl) =~= n.data);
    let d = decoded_node(s);
    assert(d.node_type == n.node_type) by {
        assert(s[0] == type_code(n.node_type));
    }
}

/// Reading the count back from a header sector gives the count it was
/// written with, whenever the count is below 2^32.
pub proof fn lemma_header_roundtrip(count: usize)
    requires
        count <= u32::MAX,
    ensures
        header_count(header_sector(count)) == Some(count),
{
    let s = header_sector(count);
    lemma_le32_roundtrip(count as u32);
    assert(s.take(4) =~= magic());
    assert(s[4] == le32_bytes(count as u32)[0] && s[5] == le32_bytes(count as u32)[1] && s[6]
        == le32_bytes(count as u32)[2] && s[7] == le32_bytes(count as u32)[3]);
}

/// Saving a filesystem and loading it back gives the same node table (and
/// directory 0), whenever every node is storable: the header of the image
/// records the node count, and each node sector reads back as its node.
pub proof fn lemma_image_roundtrip(fs: FsView)
    requires
        fs.nodes.len() <= u32::MAX,
        forall|i: int| 0 <= i < fs.nodes.len() ==> storable(#[trigger] fs.nodes[i]),
    ensures
        header_count(header_sector(fs.nodes.len() as usize)) == Some(fs.nodes.len() as usize),
        forall|i: int| 0 <= i < fs.nodes.len() ==> decoded_node(node_sector(#[trigger] fs.nodes[i])) == fs.nodes[i],
{
    lemma_header_roundtrip(fs.nodes.len() as usize);
    assert forall|i: int| 0 <= i < fs.nodes.len() implies decoded_node(node_sector(#[trigger] fs.nodes[i]))
        == fs.nodes[i] by {
        lemma_node_roundtrip(fs.nodes[i]);
    }
}

/// Once `name` is created in the current directory, it is found there, as
/// the last node; so a second create of the same name is refused.
pub proof fn lemma_create_then_find(fs: FsView, name: Seq<u8>, node_type: NodeType)
    requires
        !has_entry(fs, name),
    ensures
        ({
            let after = FsView { nodes: fs.nodes.push(new_node(name, node_type, fs.cwd)), cwd: fs.cwd };
            is_first_entry(after, name, fs.nodes.len() as int) && has_entry(after, name)
        }),
{
    let after = FsView { nodes: fs.nodes.push(new_node(name, node_type, fs.cwd)), cwd: fs.cwd };
    assert forall|j: int| 0 <= j < fs.nodes.len() implies !is_entry(#[trigger] after.nodes[j], after.cwd, name) by {
        assert(after.nodes[j] == fs.nodes[j]);
    }
    assert(is_entry(after.nodes[fs.nodes.len() as int], after.cwd, name));
}

/// After `write(name, data)` succeeds, `read(name)` gives `data`.
pub proof fn lemma_write_then_read(fs: FsView, name: Seq<u8>, data: Seq<u8>, i: int)
    requires
        is_first_entry(fs, name, i),
        fs.nodes[i].node_type == NodeType::File,
    ensures
        ({
            let after = FsView { nodes: fs.nodes.update(i, NodeView { data: data, ..fs.nodes[i] }), cwd: fs.cwd };
            &&& is_first_entry(after, name, i)
            &&& after.nodes[i].node_type == NodeType::File
            &&& after.nodes[i].data == data
        }),
{
    let after = FsView { nodes: fs.nodes.update(i, NodeView { data: data, ..fs.nodes[i] }), cwd: fs.cwd };
    assert forall|j: int| 0 <= j < i implies !is_entry(#[trigger] after.nodes[j], after.cwd, name) by {
        assert(after.nodes[j] == fs.nodes[j]);
    }
}

/// Entering a directory with `chdir(name)` and then leaving it with
/// `chdir("..")` comes back to where it started. (Node 0 is its own
/// parent for `..`, so when the directory is node 0 this needs node 0 to
/// sit in directory 0.)
pub proof fn lemma_enter_then_leave(fs: FsView, name: Seq<u8>, i: int)
    requires
        is_first_entry(fs, name, i),
        fs.nodes[i].node_type == NodeType::Dir,
        i != 0 || fs.nodes[0].parent == 0,
    ensures
        (if i == 0 {
            0
        } else {
            fs.nodes[i].parent
        }) == fs.cwd,
{
}

/// No directory holds two nodes of the same name.
pub open spec fn names_unique(fs: FsView) -> bool {
    forall|i: int, j: int|
        #![trigger fs.nodes[i], fs.nodes[j]]
        0 <= i < fs.nodes.len() && 0 <= j < fs.nodes.len() && i != j ==> !(fs.nodes[i].parent
            == fs.nodes[j].parent && fs.nodes[i].name == fs.nodes[j].name)
}

/// Creating a file or directory keeps names unique within each directory
/// (a name that is taken is refused).
pub proof fn lemma_create_keeps_names_unique(fs: FsView, name: Seq<u8>, node_type: NodeType)
    requires
        names_unique(fs),
        !has_entry(fs, name),
    ensures
        names_unique(FsView { nodes: fs.nodes.push(new_node(name, node_type, fs.cwd)), cwd: fs.cwd }),
{
    let after = FsView { nodes: fs.nodes.push(new_node(name, node_type, fs.cwd)), cwd: fs.cwd };
    let n = fs.nodes.len() as int;
    assert forall|i: int, j: int|
        #![trigger after.nodes[i], after.nodes[j]]
        0 <= i < after.nodes.len() && 0 <= j < after.nodes.len() && i != j implies !(after.nodes[i].parent
            == after.nodes[j].parent && after.nodes[i].name == after.nodes[j].name) by {
        if i == n {
            assert(after.nodes[j] == fs.nodes[j]);
            assert(!is_entry(fs.nodes[j], fs.cwd, name));
        } else if j == n {
            assert(after.nodes[i] == fs.nodes[i]);
            assert(!is_entry(fs.nodes[i], fs.cwd, name));
        } else {
            assert(after.nodes[i] == fs.nodes[i] && after.nodes[j] == fs.nodes[j]);
        }
    }
}

/// Writing a file keeps names unique within each directory.
pub proof fn lemma_write_keeps_names_unique(fs: FsView, i: int, data: Seq<u8>)
    requires
        names_unique(fs),
        0 <= i < fs.nodes.len(),
    ensures
        names_unique(FsView { nodes: fs.nodes.update(i, NodeView { data: data, ..fs.nodes[i] }), cwd: fs.cwd }),
{
    let after = FsView { nodes: fs.nodes.update(i, NodeView { data: data, ..fs.nodes[i] }), cwd: fs.cwd };
    assert forall|a: int, b: int|
        #![trigger after.nodes[a], after.nodes[b]]
        0 <= a < after.nodes.len() && 0 <= b < after.nodes.len() && a != b implies !(after.nodes[a].parent
            == after.nodes[b].parent && after.nodes[a].name == after.nodes[b].name) by {
        assert(after.nodes[a].parent == fs.nodes[a].parent && after.nodes[a].name == fs.nodes[a].name);
        assert(after.nodes[b].parent == fs.nodes[b].parent && after.nodes[b].name == fs.nodes[b].name);
    }
}

/// Removing a node keeps names unique within each directory.
pub proof fn lemma_remove_keeps_names_unique(fs: FsView, i: int)
    requires
        names_unique(fs),
        0 <= i < fs.nodes.len(),
    ensures
        names_unique(FsView { nodes: fs.nodes.remove(i), cwd: fs.cwd }),
{
    let after = FsView { nodes: fs.nodes.remove(i), cwd: fs.cwd };
    assert forall|a: int, b: int|
        #![trigger after.nodes[a], after.nodes[b]]
        0 <= a < after.nodes.len() && 0 <= b < after.nodes.len() && a != b implies !(after.nodes[a].parent
            == after.nodes[b].parent && after.nodes[a].name == after.nodes[b].name) by {
        let oa = if a < i { a } else { a + 1 };
        let ob = if b < i { b } else { b + 1 };
        assert(after.nodes[a] == fs.nodes[oa]);
        assert(after.nodes[b] == fs.nodes[ob]);
    }
}

/// When names are unique, a removed file is gone: `find` no longer sees it.
pub proof fn lemma_remove_then_gone(fs: FsView, name: Seq<u8>, i: int)
    requires
        names_unique(fs),
        is_first_entry(fs, name, i),
    ensures
        !has_entry(FsView { nodes: fs.nodes.remove(i), cwd: fs.cwd }, name),
{
    let after = FsView { nodes: fs.nodes.remove(i), cwd: fs.cwd };
    assert forall|k: int| 0 <= k < after.nodes.len() implies !is_entry(#[trigger] after.nodes[k], after.cwd, name) by {
        let ok = if k < i { k } else { k + 1 };
        assert(after.nodes[k] == fs.nodes[ok]);
        assert(fs.nodes[i] == fs.nodes[i] && fs.nodes[ok] == fs.nodes[ok]);
    }
}

/// The entries of directory `dir` are the nodes, in table order, whose parent
/// is `dir` and whose name is not `/`; each shows its name and whether it is
/// a directory.
pub proof fn lemma_listing_is_filter(nodes: Seq<NodeView>, dir: usize)
    ensures
        listing(nodes, dir) == nodes.filter(|n: NodeView| n.parent == dir && n.name != root_name()).map_values(
            |n: NodeView| (n.name, n.node_type == NodeType::Dir),
        ),
    decreases nodes.len(),
{
    reveal(Seq::filter);
    let pred = |n: NodeView| n.parent == dir && n.name != root_name();
    let f = |n: NodeView| (n.name, n.node_type == NodeType::Dir);
    if nodes.len() > 0 {
        lemma_listing_is_filter(nodes.drop_last(), dir);
        let sub = nodes.drop_last().filter(pred);
        if pred(nodes.last()) {
            assert(nodes.filter(pred) == sub.push(nodes.last()));
            assert(sub.push(nodes.last()).map_values(f) =~= sub.map_values(f).push(f(nodes.last())));
        } else {
            assert(nodes.filter(pred) == sub);
        }
    } else {
        assert(nodes.filter(pred).map_values(f) =~= Seq::<(Seq<u8>, bool)>::empty());
    }
}

/// Every entry of the listing of `dir` is a node of `dir` other than `/`, and
/// every such node is listed.
pub proof fn lemma_listing_entries(nodes: Seq<NodeView>, dir: usize)
    ensures
        listing(nodes, dir).len() <= nodes.len(),
        forall|k: int| #![trigger listing(nodes, dir)[k]] 0 <= k < listing(nodes, dir).len() ==> exists|i: int| 0 <= i < nodes.len()
            && (#[trigger] nodes[i]).parent == dir && nodes[i].name != root_name() && listing(nodes, dir)[k] == (
            nodes[i].name,
            nodes[i].node_type == NodeType::Dir,
        ),
        forall|i: int| 0 <= i < nodes.len() && (#[trigger] nodes[i]).parent == dir && nodes[i].name != root_name()
            ==> exists|k: int| #![trigger listing(nodes, dir)[k]] 0 <= k < listing(nodes, dir).len() && listing(nodes, dir)[k] == (
            nodes[i].name,
            nodes[i].node_type == NodeType::Dir,
        ),
    decreases nodes.len(),
{
    if nodes.len() > 0 {
        let q = nodes.drop_last();
        let n = nodes.last();
        let last = nodes.len() - 1;
        lemma_listing_entries(q, dir);
        let lq = listing(q, dir);
        let l = listing(nodes, dir);
        assert forall|k: int| #![trigger l[k]] 0 <= k < l.len() implies exists|i: int| 0 <= i < nodes.len()
            && (#[trigger] nodes[i]).parent == dir && nodes[i].name != root_name() && l[k] == (
            nodes[i].name,
            nodes[i].node_type == NodeType::Dir,
        ) by {
            if k < lq.len() {
                assert(l[k] == lq[k]);
                let i = choose|i: int| 0 <= i < q.len() && (#[trigger] q[i]).parent == dir && q[i].name
                    != root_name() && lq[k] == (q[i].name, q[i].node_type == NodeType::Dir);
                assert(nodes[i] == q[i]);
            } else {
                assert(nodes[last] == n);
            }
        }
        assert forall|i: int| 0 <= i < nodes.len() && (#[trigger] nodes[i]).parent == dir && nodes[i].name
            != root_name() implies exists|k: int| #![trigger l[k]] 0 <= k < l.len() && l[k] == (
            nodes[i].name,
            nodes[i].node_type == NodeType::Dir,
        ) by {
            if i < last {
                assert(q[i] == nodes[i]);
                let k = choose|k: int| 0 <= k < lq.len() && lq[k] == (q[i].name, q[i].node_type == NodeType::Dir);
                assert(l[k] == lq[k]);
            } else {
                assert(l[lq.len() as int] == (n.name, n.node_type == NodeType::Dir));
            }
        }
    }
}

} // verus!
