//! Filesystem commands: ls, pwd, cd, mkdir, touch, rm, cat, write.
//!
//! The commands that change the filesystem (mkdir, touch, rm, write)
//! make the change in memory and answer [`FileCommand::Changed`]; the
//! kernel then writes the filesystem to the disk and shows
//! [`change_report`] of the outcome.
use super::{colored, emit, emit_byte, emit_str, join, views, Output};
use super::builtin::join_from;
use crate::framebuffer::{Color, GREEN, RED, WHITE, YELLOW};
use crate::fs::{
    fs_message, has_entry, is_first_entry, listing, new_node, parent_name, FileSystem, FsError, FsView,
    NodeType, NodeView,
};
use vstd::prelude::*;
use vstd::string::StringSliceAdditionalSpecFns;

verus! {

/// An error message in red, then a newline.
pub open spec fn error_text(e: FsError) -> Seq<(u8, Color)> {
    colored(fs_message(e).spec_bytes(), RED) + colored(seq![10u8], WHITE)
}

fn emit_error(out: &mut Output, e: FsError)
    ensures
        final(out)@ == old(out)@ + error_text(e),
{
    emit_str(out, e.message(), RED);
    emit_byte(out, 10, WHITE);
    assert(out@ =~= old(out)@ + error_text(e));
}

/// One line of `ls`: a directory in yellow with a slash, a file in white.
pub open spec fn entry_text(e: (Seq<u8>, bool)) -> Seq<(u8, Color)> {
    if e.1 {
        colored(e.0, YELLOW) + colored("/\n".spec_bytes(), YELLOW)
    } else {
        colored(e.0, WHITE) + colored(seq![10u8], WHITE)
    }
}

pub open spec fn entries_text(es: Seq<(Seq<u8>, bool)>) -> Seq<(u8, Color)>
    decreases es.len(),
{
    if es.len() == 0 {
        Seq::empty()
    } else {
        entries_text(es.drop_last()) + entry_text(es.last())
    }
}

/// What `ls` prints for a listing.
pub open spec fn ls_text(es: Seq<(Seq<u8>, bool)>) -> Seq<(u8, Color)> {
    if es.len() == 0 {
        colored("(empty)\n".spec_bytes(), WHITE)
    } else {
        entries_text(es)
    }
}

/// `ls`: the entries of the current directory.
pub fn ls(fs: &FileSystem) -> (out: Output)
    ensures
        out@ == ls_text(listing(fs@.nodes, fs@.cwd)),
{
    let entries = fs.list();
    let ghost es = listing(fs@.nodes, fs@.cwd);
    let mut out: Output = Vec::new();
    if entries.len() == 0 {
        emit_str(&mut out, "(empty)\n", WHITE);
        return out;
    }
    let mut i: usize = 0;
    assert(es.take(0) =~= Seq::<(Seq<u8>, bool)>::empty());
    while i < entries.len()
        invariant
            i <= entries@.len(),
            entries@.len() == es.len(),
            forall|k: int| 0 <= k < entries@.len() ==> (#[trigger] entries@[k]).0@ == es[k].0 && entries@[k].1 == es[k].1,
            out@ == entries_text(es.take(i as int)),
        decreases entries@.len() - i,
    {
        let (name, is_dir) = entries[i];
        let ghost prev = out@;
        assert(es.take(i + 1).drop_last() =~= es.take(i as int));
        assert(es.take(i + 1).last() == es[i as int]);
        if is_dir {
            emit(&mut out, name, YELLOW);
            emit_str(&mut out, "/\n", YELLOW);
        } else {
            emit(&mut out, name, WHITE);
            emit_byte(&mut out, 10, WHITE);
        }
        assert(out@ =~= prev + entry_text(es[i as int]));
        i = i + 1;
    }
    assert(es.take(es.len() as int) =~= es);
    out
}

/// `pwd`: the name of the current directory.
pub fn pwd(fs: &FileSystem) -> (out: Output)
    requires
        fs@.cwd < fs@.nodes.len(),
    ensures
        out@ == colored(fs@.nodes[fs@.cwd as int].name, GREEN) + colored(seq![10u8], WHITE),
{
    let mut out: Output = Vec::new();
    emit(&mut out, fs.cwd_name(), GREEN);
    emit_byte(&mut out, 10, WHITE);
    assert(out@ =~= colored(fs@.nodes[fs@.cwd as int].name, GREEN) + colored(seq![10u8], WHITE));
    out
}

/// Whether the command got no name to work on.
pub open spec fn lacks_name(args: Seq<Seq<u8>>) -> bool {
    args.len() == 0 || args[0].len() == 0
}

fn lacks_name_exec(args: &Vec<Vec<u8>>) -> (r: bool)
    ensures
        r == lacks_name(views(args@)),
{
    args.len() == 0 || args[0].len() == 0
}

/// `cd <dir>`: changes the current directory; prints only a usage line or
/// an error.
pub fn cd(fs: &mut FileSystem, args: &Vec<Vec<u8>>) -> (out: Output)
    requires
        !lacks_name(views(args@)) && args@[0]@ == parent_name() && old(fs)@.cwd != 0 ==> old(fs)@.cwd
            < old(fs)@.nodes.len(),
    ensures
        lacks_name(views(args@)) ==> out@ == colored("Usage: cd <dir>\n".spec_bytes(), RED) && final(fs)@
            == old(fs)@,
        !lacks_name(views(args@)) ==> final(fs)@.nodes == old(fs)@.nodes,
        !lacks_name(views(args@)) && args@[0]@ == parent_name() ==> out@ == Seq::<(u8, Color)>::empty()
            && final(fs)@.cwd == (if old(fs)@.cwd == 0 {
            0
        } else {
            old(fs)@.nodes[old(fs)@.cwd as int].parent
        }),
        !lacks_name(views(args@)) && args@[0]@ != parent_name() && !has_entry(old(fs)@, args@[0]@) ==> out@
            == error_text(FsError::DirectoryNotFound) && final(fs)@ == old(fs)@,
        !lacks_name(views(args@)) && args@[0]@ != parent_name() ==> forall|i: int|
            #[trigger] is_first_entry(old(fs)@, args@[0]@, i) ==> if old(fs)@.nodes[i].node_type == NodeType::Dir {
                out@ == Seq::<(u8, Color)>::empty() && final(fs)@.cwd == i
            } else {
                out@ == error_text(FsError::NotADirectory) && final(fs)@ == old(fs)@
            },
{
    let mut out: Output = Vec::new();
    if lacks_name_exec(args) {
        emit_str(&mut out, "Usage: cd <dir>\n", RED);
        return out;
    }
    match fs.chdir(args[0].as_slice()) {
        Ok(()) => {},
        Err(e) => {
            emit_error(&mut out, e);
        },
    }
    out
}

/// What a change to the filesystem was, for its report.
#[derive(PartialEq, Eq, Structural, Clone, Copy, Debug)]
pub enum Verb {
    Created,
    Removed,
    Written,
}

pub open spec fn verb_text(v: Verb) -> &'static str {
    match v {
        Verb::Created => "Created: ",
        Verb::Removed => "Removed: ",
        Verb::Written => "Written: ",
    }
}

/// The answer of a command that may change the filesystem.
pub enum FileCommand {
    /// Nothing changed; print this.
    Finished(Output),
    /// The node `name` was changed in memory: save, then report.
    Changed { verb: Verb, name: Vec<u8> },
}

/// The report of a change once the filesystem was saved: the change in
/// green, or the error that stopped it.
pub open spec fn change_text(verb: Verb, name: Seq<u8>, saved: Result<(), FsError>) -> Seq<(u8, Color)> {
    match saved {
        Ok(()) => colored(verb_text(verb).spec_bytes(), GREEN) + colored(name, GREEN) + colored(seq![10u8], WHITE),
        Err(e) => error_text(e),
    }
}

/// Reports a change and the outcome of saving it.
pub fn change_report(verb: Verb, name: &[u8], saved: Result<(), FsError>) -> (out: Output)
    ensures
        out@ == change_text(verb, name@, saved),
{
    let mut out: Output = Vec::new();
    match saved {
        Ok(()) => {
            let text = match verb {
                Verb::Created => "Created: ",
                Verb::Removed => "Removed: ",
                Verb::Written => "Written: ",
            };
            emit_str(&mut out, text, GREEN);
            emit(&mut out, name, GREEN);
            emit_byte(&mut out, 10, WHITE);
        },
        Err(e) => {
            emit_error(&mut out, e);
        },
    }
    out
}

/// The answer `Finished` with this text.
pub open spec fn finished(r: FileCommand, text: Seq<(u8, Color)>) -> bool {
    r matches FileCommand::Finished(o) && o@ == text
}

/// The answer `Changed` for this verb and name.
pub open spec fn changed(r: FileCommand, verb: Verb, name: Seq<u8>) -> bool {
    r matches FileCommand::Changed { verb: v, name: n } && v == verb && n@ == name
}

fn create_command(fs: &mut FileSystem, args: &Vec<Vec<u8>>, dir: bool) -> (r: FileCommand)
    ensures
        lacks_name(views(args@)) ==> finished(r, colored((if dir { "Usage: mkdir <dir>\n" } else { "Usage: touch <file>\n" }).spec_bytes(), RED))
            && final(fs)@ == old(fs)@,
        !lacks_name(views(args@)) && has_entry(old(fs)@, args@[0]@) ==> finished(
            r,
            error_text(if dir { FsError::DirectoryExists } else { FsError::FileExists }),
        ) && final(fs)@ == old(fs)@,
        !lacks_name(views(args@)) && !has_entry(old(fs)@, args@[0]@) ==> changed(r, Verb::Created, args@[0]@)
            && final(fs)@ == (FsView {
            nodes: old(fs)@.nodes.push(new_node(args@[0]@, if dir { NodeType::Dir } else { NodeType::File }, old(fs)@.cwd)),
            cwd: old(fs)@.cwd,
        }),
{
    let mut out: Output = Vec::new();
    if lacks_name_exec(args) {
        if dir {
            emit_str(&mut out, "Usage: mkdir <dir>\n", RED);
        } else {
            emit_str(&mut out, "Usage: touch <file>\n", RED);
        }
        return FileCommand::Finished(out);
    }
    let name = args[0].as_slice();
    let r = if dir {
        fs.create_dir(name)
    } else {
        fs.create_file(name)
    };
    match r {
        Ok(()) => FileCommand::Changed { verb: Verb::Created, name: crate::bytes::copy_bytes(name) },
        Err(e) => {
            emit_error(&mut out, e);
            FileCommand::Finished(out)
        },
    }
}

/// `mkdir <dir>`: creates a directory in the current directory.
pub fn mkdir(fs: &mut FileSystem, args: &Vec<Vec<u8>>) -> (r: FileCommand)
    ensures
        lacks_name(views(args@)) ==> finished(r, colored("Usage: mkdir <dir>\n".spec_bytes(), RED)) && final(fs)@
            == old(fs)@,
        !lacks_name(views(args@)) && has_entry(old(fs)@, args@[0]@) ==> finished(
            r,
            error_text(FsError::DirectoryExists),
        ) && final(fs)@ == old(fs)@,
        !lacks_name(views(args@)) && !has_entry(old(fs)@, args@[0]@) ==> changed(r, Verb::Created, args@[0]@)
            && final(fs)@ == (FsView {
            nodes: old(fs)@.nodes.push(new_node(args@[0]@, NodeType::Dir, old(fs)@.cwd)),
            cwd: old(fs)@.cwd,
        }),
{
    create_command(fs, args, true)
}

/// `touch <file>`: creates an empty file in the current directory.
pub fn touch(fs: &mut FileSystem, args: &Vec<Vec<u8>>) -> (r: FileCommand)
    ensures
        lacks_name(views(args@)) ==> finished(r, colored("Usage: touch <file>\n".spec_bytes(), RED)) && final(fs)@
            == old(fs)@,
        !lacks_name(views(args@)) && has_entry(old(fs)@, args@[0]@) ==> finished(r, error_text(FsError::FileExists))
            && final(fs)@ == old(fs)@,
        !lacks_name(views(args@)) && !has_entry(old(fs)@, args@[0]@) ==> changed(r, Verb::Created, args@[0]@)
            && final(fs)@ == (FsView {
            nodes: old(fs)@.nodes.push(new_node(args@[0]@, NodeType::File, old(fs)@.cwd)),
            cwd: old(fs)@.cwd,
        }),
{
    create_command(fs, args, false)
}

/// `rm <file>`: removes a file of the current directory.
pub fn rm(fs: &mut FileSystem, args: &Vec<Vec<u8>>) -> (r: FileCommand)
    ensures
        lacks_name(views(args@)) ==> finished(r, colored("Usage: rm <file>\n".spec_bytes(), RED)) && final(fs)@
            == old(fs)@,
        !lacks_name(views(args@)) && !has_entry(old(fs)@, args@[0]@) ==> finished(
            r,
            error_text(FsError::FileNotFound),
        ) && final(fs)@ == old(fs)@,
        !lacks_name(views(args@)) ==> forall|i: int| #[trigger] is_first_entry(old(fs)@, args@[0]@, i) ==> {
            if old(fs)@.nodes[i].node_type == NodeType::Dir {
                finished(r, error_text(FsError::IsDirectory)) && final(fs)@ == old(fs)@
            } else {
                changed(r, Verb::Removed, args@[0]@) && final(fs)@ == (FsView {
                    nodes: old(fs)@.nodes.remove(i),
                    cwd: old(fs)@.cwd,
                })
            }
        },
{
    let mut out: Output = Vec::new();
    if lacks_name_exec(args) {
        emit_str(&mut out, "Usage: rm <file>\n", RED);
        return FileCommand::Finished(out);
    }
    let name = args[0].as_slice();
    match fs.remove(name) {
        Ok(()) => FileCommand::Changed { verb: Verb::Removed, name: crate::bytes::copy_bytes(name) },
        Err(e) => {
            emit_error(&mut out, e);
            FileCommand::Finished(out)
        },
    }
}

/// What `cat` prints for a file's contents.
pub open spec fn contents_text(data: Seq<u8>) -> Seq<(u8, Color)> {
    colored(data, WHITE) + colored(seq![10u8], WHITE)
}

/// `cat <file>`: prints a file of the current directory.
pub fn cat(fs: &FileSystem, args: &Vec<Vec<u8>>) -> (out: Output)
    ensures
        lacks_name(views(args@)) ==> out@ == colored("Usage: cat <file>\n".spec_bytes(), RED),
        !lacks_name(views(args@)) && !has_entry(fs@, args@[0]@) ==> out@ == error_text(FsError::FileNotFound),
        !lacks_name(views(args@)) ==> forall|i: int| #[trigger] is_first_entry(fs@, args@[0]@, i) ==> {
            if fs@.nodes[i].node_type == NodeType::Dir {
                out@ == error_text(FsError::CannotReadDirectory)
            } else {
                out@ == contents_text(fs@.nodes[i].data)
            }
        },
{
    let mut out: Output = Vec::new();
    if lacks_name_exec(args) {
        emit_str(&mut out, "Usage: cat <file>\n", RED);
        return out;
    }
    match fs.read(args[0].as_slice()) {
        Ok(data) => {
            emit(&mut out, data, WHITE);
            emit_byte(&mut out, 10, WHITE);
            assert(out@ =~= contents_text(data@));
        },
        Err(e) => {
            emit_error(&mut out, e);
        },
    }
    out
}

/// `write <file> <text...>`: replaces a file's contents with the rest of
/// the arguments joined by spaces.
pub fn write(fs: &mut FileSystem, args: &Vec<Vec<u8>>) -> (r: FileCommand)
    ensures
        args@.len() < 2 ==> finished(r, colored("Usage: write <file> <text>\n".spec_bytes(), RED)) && final(fs)@
            == old(fs)@,
        args@.len() >= 2 && !has_entry(old(fs)@, args@[0]@) ==> finished(r, error_text(FsError::FileNotFound))
            && final(fs)@ == old(fs)@,
        args@.len() >= 2 ==> forall|i: int| #[trigger] is_first_entry(old(fs)@, args@[0]@, i) ==> {
            if old(fs)@.nodes[i].node_type == NodeType::Dir {
                finished(r, error_text(FsError::CannotWriteDirectory)) && final(fs)@ == old(fs)@
            } else {
                changed(r, Verb::Written, args@[0]@) && final(fs)@ == (FsView {
                    nodes: old(fs)@.nodes.update(
                        i,
                        NodeView { data: join(views(args@).skip(1)), ..old(fs)@.nodes[i] },
                    ),
                    cwd: old(fs)@.cwd,
                })
            }
        },
{
    let mut out: Output = Vec::new();
    if args.len() < 2 {
        emit_str(&mut out, "Usage: write <file> <text>\n", RED);
        return FileCommand::Finished(out);
    }
    let name = args[0].as_slice();
    let text = join_from(args, 1);
    match fs.write(name, text.as_slice()) {
        Ok(()) => FileCommand::Changed { verb: Verb::Written, name: crate::bytes::copy_bytes(name) },
        Err(e) => {
            emit_error(&mut out, e);
            FileCommand::Finished(out)
        },
    }
}

} // verus!
