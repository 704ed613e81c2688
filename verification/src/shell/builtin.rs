//! Built-in commands: help and echo. (`clear` only clears the console.)
use super::{colored, emit, emit_byte, emit_str, join, views, Output};
use crate::framebuffer::{WHITE, YELLOW};
use vstd::prelude::*;
use vstd::string::StringSliceAdditionalSpecFns;

verus! {

/// The text of `help`.
pub open spec fn help_text() -> Seq<(u8, (u8, u8, u8))> {
    colored("=== Builtin ===\n".spec_bytes(), YELLOW)
        + colored("  help               - this message\n".spec_bytes(), WHITE)
        + colored("  clear              - clear screen\n".spec_bytes(), WHITE)
        + colored("  echo <text>        - print text\n".spec_bytes(), WHITE)
        + colored("=== System ===\n".spec_bytes(), YELLOW)
        + colored("  uname              - system info\n".spec_bytes(), WHITE)
        + colored("  reboot             - reboot\n".spec_bytes(), WHITE)
        + colored("  shutdown           - power off\n".spec_bytes(), WHITE)
        + colored("  diskinfo [-v]      - disk info\n".spec_bytes(), WHITE)
        + colored("=== Display ===\n".spec_bytes(), YELLOW)
        + colored("  color <r> <g> <b> [text]\n".spec_bytes(), WHITE)
        + colored("=== Filesystem ===\n".spec_bytes(), YELLOW)
        + colored("  ls  pwd  cd  mkdir  touch  rm  cat  write\n".spec_bytes(), WHITE)
}

/// The list of commands.
pub fn help() -> (out: Output)
    ensures
        out@ == help_text(),
{
    let mut out: Output = Vec::new();
    emit_str(&mut out, "=== Builtin ===\n", YELLOW);
    emit_str(&mut out, "  help               - this message\n", WHITE);
    emit_str(&mut out, "  clear              - clear screen\n", WHITE);
    emit_str(&mut out, "  echo <text>        - print text\n", WHITE);
    emit_str(&mut out, "=== System ===\n", YELLOW);
    emit_str(&mut out, "  uname              - system info\n", WHITE);
    emit_str(&mut out, "  reboot             - reboot\n", WHITE);
    emit_str(&mut out, "  shutdown           - power off\n", WHITE);
    emit_str(&mut out, "  diskinfo [-v]      - disk info\n", WHITE);
    emit_str(&mut out, "=== Display ===\n", YELLOW);
    emit_str(&mut out, "  color <r> <g> <b> [text]\n", WHITE);
    emit_str(&mut out, "=== Filesystem ===\n", YELLOW);
    emit_str(&mut out, "  ls  pwd  cd  mkdir  touch  rm  cat  write\n", WHITE);
    assert(out@ =~= help_text());
    out
}

/// The words `args[from..]` joined with single spaces.
pub fn join_from(args: &Vec<Vec<u8>>, from: usize) -> (r: Vec<u8>)
    requires
        from <= args@.len(),
    ensures
        r@ == join(views(args@).skip(from as int)),
{
    let mut r: Vec<u8> = Vec::new();
    let mut i: usize = from;
    let ghost ws = views(args@);
    assert(ws.subrange(from as int, from as int) =~= Seq::<Seq<u8>>::empty());
    while i < args.len()
        invariant
            from <= i <= args@.len(),
            ws == views(args@),
            r@ == join(ws.subrange(from as int, i as int)),
        decreases args@.len() - i,
    {
        let ghost prev = r@;
        let ghost part = ws.subrange(from as int, i + 1);
        assert(part.drop_last() =~= ws.subrange(from as int, i as int));
        if i > from {
            r.push(32u8);
        }
        let mut j: usize = 0;
        let ghost mid = r@;
        while j < args[i].len()
            invariant
                j <= args@[i as int]@.len(),
                i < args@.len(),
                r@ == mid + args@[i as int]@.take(j as int),
            decreases args@[i as int]@.len() - j,
        {
            r.push(args[i][j]);
            j = j + 1;
            assert(r@ =~= mid + args@[i as int]@.take(j as int));
        }
        assert(args@[i as int]@.take(j as int) =~= args@[i as int]@);
        if i > from {
            assert(r@ =~= join(part));
        } else {
            assert(part =~= seq![ws[i as int]]);
        }
        i = i + 1;
    }
    assert(ws.subrange(from as int, args@.len() as int) =~= ws.skip(from as int));
    r
}

/// `echo`: the arguments joined with spaces, then a newline.
pub fn echo(args: &Vec<Vec<u8>>) -> (out: Output)
    ensures
        out@ == colored(join(views(args@)), WHITE) + colored(seq![10u8], WHITE),
{
    let text = join_from(args, 0);
    assert(views(args@).skip(0) =~= views(args@));
    let mut out: Output = Vec::new();
    emit(&mut out, text.as_slice(), WHITE);
    emit_byte(&mut out, 10, WHITE);
    assert(out@ =~= colored(join(views(args@)), WHITE) + colored(seq![10u8], WHITE));
    out
}

} // verus!
