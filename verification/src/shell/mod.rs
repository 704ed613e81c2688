//! The shell: how a typed line becomes a command and its arguments, and
//! what each command prints.
//!
//! A command's text is an [`Output`]: the bytes to print, each with its
//! colour, in order.
use crate::bytes::{bytes_eq, copy_bytes};
use crate::framebuffer::{Color, RED, WHITE};
use vstd::prelude::*;
use vstd::string::StringSliceAdditionalSpecFns;

pub mod builtin;
pub mod display;
pub mod files;
pub mod system;

verus! {

/// Coloured text, byte by byte.
pub type Output = Vec<(u8, Color)>;

/// The bytes of `s`, each in colour `c`.
pub open spec fn colored(s: Seq<u8>, c: Color) -> Seq<(u8, Color)> {
    Seq::new(s.len(), |i: int| (s[i], c))
}

/// Appends the bytes of `s` in colour `c`.
pub fn emit(out: &mut Output, s: &[u8], c: Color)
    ensures
        final(out)@ == old(out)@ + colored(s@, c),
{
    let ghost before = out@;
    let mut i: usize = 0;
    while i < s.len()
        invariant
            i <= s@.len(),
            out@ == before + colored(s@.take(i as int), c),
        decreases s@.len() - i,
    {
        out.push((s[i], c));
        i = i + 1;
        assert(out@ =~= before + colored(s@.take(i as int), c));
    }
    assert(s@.take(s@.len() as int) =~= s@);
}

/// Appends the bytes of the text `s` in colour `c`.
pub fn emit_str(out: &mut Output, s: &str, c: Color)
    ensures
        final(out)@ == old(out)@ + colored(s.spec_bytes(), c),
{
    emit(out, s.as_bytes(), c);
}

/// Appends one byte in colour `c`.
pub fn emit_byte(out: &mut Output, b: u8, c: Color)
    ensures
        final(out)@ == old(out)@ + colored(seq![b], c),
{
    out.push((b, c));
    assert(out@ =~= old(out)@ + colored(seq![b], c));
}

/// ASCII whitespace: tab, line feed, vertical tab, form feed, carriage
/// return and space.
pub open spec fn is_ascii_blank(b: u8) -> bool {
    (9 <= b <= 13) || b == 32
}

/// Whether two bytes encode U+0085 or U+00A0 (no-break space).
pub open spec fn is_blank2(a: u8, b: u8) -> bool {
    a == 0xC2 && (b == 0x85 || b == 0xA0)
}

/// Whether three bytes encode a three-byte whitespace character: U+1680,
/// U+2000 to U+200A, U+2028, U+2029, U+202F, U+205F or U+3000.
pub open spec fn is_blank3(a: u8, b: u8, c: u8) -> bool {
    ||| (a == 0xE1 && b == 0x9A && c == 0x80)
    ||| (a == 0xE2 && b == 0x80 && ((0x80 <= c <= 0x8A) || c == 0xA8 || c == 0xA9 || c == 0xAF))
    ||| (a == 0xE2 && b == 0x81 && c == 0x9F)
    ||| (a == 0xE3 && b == 0x80 && c == 0x80)
}

/// The length of the UTF-8 encoded whitespace character (a character that
/// `char::is_whitespace` accepts) that `s` starts with; 0 if it starts with none.
pub open spec fn leading_blank(s: Seq<u8>) -> int {
    if s.len() >= 1 && is_ascii_blank(s[0]) {
        1
    } else if s.len() >= 2 && is_blank2(s[0], s[1]) {
        2
    } else if s.len() >= 3 && is_blank3(s[0], s[1], s[2]) {
        3
    } else {
        0
    }
}

/// The length of the UTF-8 encoded whitespace character that `s` ends with;
/// 0 if it ends with none.
pub open spec fn trailing_blank(s: Seq<u8>) -> int {
    let n = s.len() as int;
    if n >= 1 && is_ascii_blank(s[n - 1]) {
        1
    } else if n >= 2 && is_blank2(s[n - 2], s[n - 1]) {
        2
    } else if n >= 3 && is_blank3(s[n - 3], s[n - 2], s[n - 1]) {
        3
    } else {
        0
    }
}

pub open spec fn trim_start(s: Seq<u8>) -> Seq<u8>
    decreases s.len(),
{
    if leading_blank(s) > 0 {
        trim_start(s.skip(leading_blank(s)))
    } else {
        s
    }
}

pub open spec fn trim_end(s: Seq<u8>) -> Seq<u8>
    decreases s.len(),
{
    if trailing_blank(s) > 0 {
        trim_end(s.take(s.len() - trailing_blank(s)))
    } else {
        s
    }
}

/// `s` (UTF-8 text) without leading and trailing whitespace, whitespace being
/// the characters that `char::is_whitespace` accepts.
pub open spec fn trim(s: Seq<u8>) -> Seq<u8> {
    trim_end(trim_start(s))
}

/// The index of the first space in `s`.
pub open spec fn first_space(s: Seq<u8>) -> Option<int>
    decreases s.len(),
{
    if s.len() == 0 {
        None
    } else if s[0] == 32 {
        Some(0)
    } else {
        match first_space(s.drop_first()) {
            Some(k) => Some(k + 1),
            None => None,
        }
    }
}

/// `s` cut at single spaces into at most `n` pieces; the last piece keeps
/// the rest of the line, spaces included.
pub open spec fn split_n(s: Seq<u8>, n: nat) -> Seq<Seq<u8>>
    decreases n,
{
    if n <= 1 {
        seq![s]
    } else {
        match first_space(s) {
            None => seq![s],
            Some(k) => seq![s.take(k)] + split_n(s.skip(k + 1), (n - 1) as nat),
        }
    }
}

/// The non-empty pieces, in order.
pub open spec fn non_empty(ps: Seq<Seq<u8>>) -> Seq<Seq<u8>>
    decreases ps.len(),
{
    if ps.len() == 0 {
        Seq::empty()
    } else if ps.last().len() > 0 {
        non_empty(ps.drop_last()).push(ps.last())
    } else {
        non_empty(ps.drop_last())
    }
}

/// The pieces of a command line: at most nine, cut at spaces after trimming.
pub open spec fn line_pieces(line: Seq<u8>) -> Seq<Seq<u8>> {
    split_n(trim(line), 9)
}

/// The arguments of a command line: the non-empty pieces after the first.
pub open spec fn line_args(line: Seq<u8>) -> Seq<Seq<u8>> {
    non_empty(line_pieces(line).drop_first())
}

/// `words` joined with single spaces.
pub open spec fn join(words: Seq<Seq<u8>>) -> Seq<u8>
    decreases words.len(),
{
    if words.len() == 0 {
        Seq::empty()
    } else if words.len() == 1 {
        words[0]
    } else {
        join(words.drop_last()) + seq![32u8] + words.last()
    }
}

pub open spec fn views(v: Seq<Vec<u8>>) -> Seq<Seq<u8>> {
    v.map_values(|x: Vec<u8>| x@)
}

/// The commands the shell knows.
#[derive(PartialEq, Eq, Structural, Clone, Copy, Debug)]
pub enum Command {
    Help,
    Clear,
    Echo,
    Uname,
    Reboot,
    Shutdown,
    DiskInfo,
    Color,
    Ls,
    Pwd,
    Cd,
    Mkdir,
    Touch,
    Rm,
    Cat,
    Write,
    /// A name the shell does not know.
    Unknown,
}

/// The command a word names.
pub open spec fn command_of(w: Seq<u8>) -> Command {
    if w == "help".spec_bytes() {
        Command::Help
    } else if w == "clear".spec_bytes() {
        Command::Clear
    } else if w == "echo".spec_bytes() {
        Command::Echo
    } else if w == "uname".spec_bytes() {
        Command::Uname
    } else if w == "reboot".spec_bytes() {
        Command::Reboot
    } else if w == "shutdown".spec_bytes() {
        Command::Shutdown
    } else if w == "diskinfo".spec_bytes() {
        Command::DiskInfo
    } else if w == "color".spec_bytes() {
        Command::Color
    } else if w == "ls".spec_bytes() {
        Command::Ls
    } else if w == "pwd".spec_bytes() {
        Command::Pwd
    } else if w == "cd".spec_bytes() {
        Command::Cd
    } else if w == "mkdir".spec_bytes() {
        Command::Mkdir
    } else if w == "touch".spec_bytes() {
        Command::Touch
    } else if w == "rm".spec_bytes() {
        Command::Rm
    } else if w == "cat".spec_bytes() {
        Command::Cat
    } else if w == "write".spec_bytes() {
        Command::Write
    } else {
        Command::Unknown
    }
}

/// A parsed command line.
pub struct Invocation {
    pub command: Command,
    /// The command word as typed.
    pub name: Vec<u8>,
    pub args: Vec<Vec<u8>>,
}

/// Which command a word names.
pub fn command_named(w: &[u8]) -> (c: Command)
    ensures
        c == command_of(w@),
{
    if bytes_eq(w, "help".as_bytes()) {
        Command::Help
    } else if bytes_eq(w, "clear".as_bytes()) {
        Command::Clear
    } else if bytes_eq(w, "echo".as_bytes()) {
        Command::Echo
    } else if bytes_eq(w, "uname".as_bytes()) {
        Command::Uname
    } else if bytes_eq(w, "reboot".as_bytes()) {
        Command::Reboot
    } else if bytes_eq(w, "shutdown".as_bytes()) {
        Command::Shutdown
    } else if bytes_eq(w, "diskinfo".as_bytes()) {
        Command::DiskInfo
    } else if bytes_eq(w, "color".as_bytes()) {
        Command::Color
    } else if bytes_eq(w, "ls".as_bytes()) {
        Command::Ls
    } else if bytes_eq(w, "pwd".as_bytes()) {
        Command::Pwd
    } else if bytes_eq(w, "cd".as_bytes()) {
        Command::Cd
    } else if bytes_eq(w, "mkdir".as_bytes()) {
        Command::Mkdir
    } else if bytes_eq(w, "touch".as_bytes()) {
        Command::Touch
    } else if bytes_eq(w, "rm".as_bytes()) {
        Command::Rm
    } else if bytes_eq(w, "cat".as_bytes()) {
        Command::Cat
    } else if bytes_eq(w, "write".as_bytes()) {
        Command::Write
    } else {
        Command::Unknown
    }
}

/// What the shell answers to a command it does not know.
pub open spec fn unknown_text(name: Seq<u8>) -> Seq<(u8, Color)> {
    colored("Unknown command: ".spec_bytes(), RED) + colored(name, RED) + colored(seq![10u8], WHITE)
}

/// The answer to an unknown command `name`.
pub fn unknown(name: &[u8]) -> (out: Output)
    ensures
        out@ == unknown_text(name@),
{
    let mut out: Output = Vec::new();
    emit_str(&mut out, "Unknown command: ", RED);
    emit(&mut out, name, RED);
    emit_byte(&mut out, 10, WHITE);
    assert(out@ =~= unknown_text(name@));
    out
}

/// Copies `s[lo..hi]` into a new vector.
fn slice_copy(s: &[u8], lo: usize, hi: usize) -> (v: Vec<u8>)
    requires
        lo <= hi <= s@.len(),
    ensures
        v@ == s@.subrange(lo as int, hi as int),
{
    let mut v: Vec<u8> = Vec::new();
    let mut i: usize = lo;
    while i < hi
        invariant
            lo <= i <= hi,
            hi <= s@.len(),
            v@ == s@.subrange(lo as int, i as int),
        decreases hi - i,
    {
        v.push(s[i]);
        i = i + 1;
        assert(v@ =~= s@.subrange(lo as int, i as int));
    }
    v
}

fn ascii_blank(b: u8) -> (r: bool)
    ensures
        r == is_ascii_blank(b),
{
    (9 <= b && b <= 13) || b == 32
}

fn blank3(a: u8, b: u8, c: u8) -> (r: bool)
    ensures
        r == is_blank3(a, b, c),
{
    (a == 0xE1 && b == 0x9A && c == 0x80) || (a == 0xE2 && b == 0x80 && ((0x80 <= c && c <= 0x8A) || c
        == 0xA8 || c == 0xA9 || c == 0xAF)) || (a == 0xE2 && b == 0x81 && c == 0x9F) || (a == 0xE3 && b
        == 0x80 && c == 0x80)
}

/// The length of the whitespace character at the start of `s[lo..hi]`.
fn leading_blank_at(s: &[u8], lo: usize, hi: usize) -> (r: usize)
    requires
        lo <= hi <= s@.len(),
    ensures
        r == leading_blank(s@.subrange(lo as int, hi as int)),
{
    let n = hi - lo;
    if n >= 1 && ascii_blank(s[lo]) {
        1
    } else if n >= 2 && s[lo] == 0xC2 && (s[lo + 1] == 0x85 || s[lo + 1] == 0xA0) {
        2
    } else if n >= 3 && blank3(s[lo], s[lo + 1], s[lo + 2]) {
        3
    } else {
        0
    }
}

/// The length of the whitespace character at the end of `s[lo..hi]`.
fn trailing_blank_at(s: &[u8], lo: usize, hi: usize) -> (r: usize)
    requires
        lo <= hi <= s@.len(),
    ensures
        r == trailing_blank(s@.subrange(lo as int, hi as int)),
{
    let n = hi - lo;
    if n >= 1 && ascii_blank(s[hi - 1]) {
        1
    } else if n >= 2 && s[hi - 2] == 0xC2 && (s[hi - 1] == 0x85 || s[hi - 1] == 0xA0) {
        2
    } else if n >= 3 && blank3(s[hi - 3], s[hi - 2], s[hi - 1]) {
        3
    } else {
        0
    }
}

/// The bounds of `s` without its leading and trailing whitespace.
fn trim_bounds(s: &[u8]) -> (r: (usize, usize))
    ensures
        r.0 <= r.1 <= s@.len(),
        s@.subrange(r.0 as int, r.1 as int) == trim(s@),
{
    let len = s.len();
    let mut lo: usize = 0;
    assert(s@.subrange(0, len as int) =~= s@);
    loop
        invariant
            lo <= len,
            len == s@.len(),
            trim_start(s@.subrange(lo as int, len as int)) == trim_start(s@),
        ensures
            lo <= len,
            trim_start(s@) == s@.subrange(lo as int, len as int),
        decreases len - lo,
    {
        let k = leading_blank_at(s, lo, len);
        if k == 0 {
            break;
        }
        assert(s@.subrange(lo as int, len as int).skip(k as int) =~= s@.subrange(lo + k, len as int));
        lo = lo + k;
    }
    let mut hi: usize = len;
    loop
        invariant
            lo <= hi <= len,
            len == s@.len(),
            trim_start(s@) == s@.subrange(lo as int, len as int),
            trim_end(s@.subrange(lo as int, hi as int)) == trim(s@),
        ensures
            lo <= hi <= len,
            s@.subrange(lo as int, hi as int) == trim(s@),
        decreases hi - lo,
    {
        let k = trailing_blank_at(s, lo, hi);
        if k == 0 {
            break;
        }
        assert(s@.subrange(lo as int, hi as int).take(hi - lo - k) =~= s@.subrange(lo as int, hi - k));
        hi = hi - k;
    }
    (lo, hi)
}

/// The first space in `s[from..hi]`, as an index into `s`.
fn find_space(s: &[u8], from: usize, hi: usize) -> (r: Option<usize>)
    requires
        from <= hi <= s@.len(),
    ensures
        match r {
            Some(k) => from <= k < hi && first_space(s@.subrange(from as int, hi as int)) == Some(k - from),
            None => first_space(s@.subrange(from as int, hi as int)) is None,
        },
{
    let mut k: usize = from;
    while k < hi
        invariant
            from <= k <= hi,
            hi <= s@.len(),
            first_space(s@.subrange(from as int, hi as int)) == match first_space(s@.subrange(k as int, hi as int)) {
                Some(j) => Some(j + (k - from)),
                None => None::<int>,
            },
        decreases hi - k,
    {
        if s[k] == 32 {
            return Some(k);
        }
        assert(s@.subrange(k as int, hi as int).drop_first() =~= s@.subrange(k + 1, hi as int));
        k = k + 1;
    }
    None
}

/// Splits a command line: trims it, cuts it at spaces into at most nine
/// pieces, takes the first as the command and the other non-empty pieces
/// as its arguments. `None` for a blank line.
pub fn execute(input: &[u8]) -> (r: Option<Invocation>)
    ensures
        trim(input@).len() == 0 ==> r is None,
        trim(input@).len() > 0 ==> (r matches Some(inv) && inv.name@ == line_pieces(input@)[0] && inv.command
            == command_of(inv.name@) && views(inv.args@) == line_args(input@)),
{
    let (lo, hi) = trim_bounds(input);
    if lo == hi {
        return None;
    }
    let ghost t = input@.subrange(lo as int, hi as int);
    let mut pieces: Vec<Vec<u8>> = Vec::new();
    let mut start: usize = lo;
    let mut n: usize = 9;
    assert(views(pieces@) =~= Seq::<Seq<u8>>::empty());
    assert(split_n(t, 9) =~= views(pieces@) + split_n(input@.subrange(start as int, hi as int), n as nat));
    loop
        invariant_except_break
            lo <= start <= hi,
            hi <= input@.len(),
            1 <= n <= 9,
            t == trim(input@),
            split_n(t, 9) == views(pieces@) + split_n(input@.subrange(start as int, hi as int), n as nat),
        ensures
            split_n(t, 9) == views(pieces@),
        decreases n,
    {
        let ghost rest = input@.subrange(start as int, hi as int);
        let ghost prev = pieces@;
        if n == 1 {
            let piece = slice_copy(input, start, hi);
            pieces.push(piece);
            assert(views(pieces@) =~= views(prev) + seq![rest]);
            break;
        }
        match find_space(input, start, hi) {
            None => {
                let piece = slice_copy(input, start, hi);
                pieces.push(piece);
                assert(views(pieces@) =~= views(prev) + seq![rest]);
                break;
            },
            Some(k) => {
                let piece = slice_copy(input, start, k);
                pieces.push(piece);
                assert(rest.take(k - start) =~= input@.subrange(start as int, k as int));
                assert(rest.skip(k - start + 1) =~= input@.subrange(k + 1, hi as int));
                assert(views(pieces@) =~= views(prev) + seq![rest.take(k - start)]);
                assert(views(prev) + split_n(rest, n as nat) =~= views(pieces@) + split_n(
                    input@.subrange(k + 1, hi as int),
                    (n - 1) as nat,
                ));
                start = k + 1;
                n = n - 1;
            },
        }
    }
    let ghost ps = views(pieces@);
    assert(ps.len() >= 1) by {
        assert(split_n(t, 9).len() >= 1) by {
            reveal_with_fuel(split_n, 2);
        }
    }
    let name = copy_bytes(pieces[0].as_slice());
    let mut args: Vec<Vec<u8>> = Vec::new();
    let mut i: usize = 1;
    assert(ps.subrange(1, 1) =~= Seq::<Seq<u8>>::empty());
    assert(views(args@) =~= Seq::<Seq<u8>>::empty());
    while i < pieces.len()
        invariant
            1 <= i <= pieces@.len(),
            ps == views(pieces@),
            views(args@) == non_empty(ps.subrange(1, i as int)),
        decreases pieces@.len() - i,
    {
        let ghost prev = args@;
        assert(ps.subrange(1, i + 1).drop_last() =~= ps.subrange(1, i as int));
        if pieces[i].len() > 0 {
            let piece = copy_bytes(pieces[i].as_slice());
            args.push(piece);
            assert(views(args@) =~= views(prev).push(ps[i as int]));
        }
        i = i + 1;
    }
    assert(ps.subrange(1, pieces@.len() as int) =~= ps.drop_first());
    let command = command_named(name.as_slice());
    Some(Invocation { command, name, args })
}

proof fn lemma_first_space(s: Seq<u8>)
    ensures
        match first_space(s) {
            Some(k) => 0 <= k < s.len() && s[k] == 32 && forall|j: int| 0 <= j < k ==> s[j] != 32,
            None => forall|j: int| 0 <= j < s.len() ==> s[j] != 32,
        },
    decreases s.len(),
{
    if s.len() > 0 && s[0] != 32 {
        lemma_first_space(s.drop_first());
        match first_space(s.drop_first()) {
            Some(k) => {
                assert forall|j: int| 0 <= j < k + 1 implies s[j] != 32 by {
                    if j > 0 {
                        assert(s[j] == s.drop_first()[j - 1]);
                    }
                }
            },
            None => {
                assert forall|j: int| 0 <= j < s.len() implies s[j] != 32 by {
                    if j > 0 {
                        assert(s[j] == s.drop_first()[j - 1]);
                    }
                }
            },
        }
    }
}

proof fn lemma_join_prepend(a: Seq<u8>, ws: Seq<Seq<u8>>)
    requires
        ws.len() >= 1,
    ensures
        join(seq![a] + ws) == a + seq![32u8] + join(ws),
    decreases ws.len(),
{
    let all = seq![a] + ws;
    if ws.len() == 1 {
        assert(all.drop_last() =~= seq![a]);
        assert(join(seq![a]) == a);
        assert(all.last() == ws[0]);
        assert(join(ws) == ws[0]);
    } else {
        assert(all.drop_last() =~= seq![a] + ws.drop_last());
        lemma_join_prepend(a, ws.drop_last());
        assert(all.last() == ws.last());
        assert(join(all) =~= a + seq![32u8] + join(ws));
    }
}

/// Cutting a line at spaces loses nothing: the pieces joined with single
/// spaces give the line back.
pub proof fn lemma_split_join(s: Seq<u8>, n: nat)
    ensures
        split_n(s, n).len() >= 1,
        join(split_n(s, n)) == s,
    decreases n,
{
    if n > 1 {
        lemma_first_space(s);
        match first_space(s) {
            None => {},
            Some(k) => {
                let rest = s.skip(k + 1);
                lemma_split_join(rest, (n - 1) as nat);
                lemma_join_prepend(s.take(k), split_n(rest, (n - 1) as nat));
                assert(s =~= s.take(k) + seq![32u8] + rest);
            },
        }
    }
}

/// Whether `p` holds no space.
pub open spec fn has_no_space(p: Seq<u8>) -> bool {
    forall|j: int| 0 <= j < p.len() ==> p[j] != 32
}

proof fn lemma_split_shape(s: Seq<u8>, n: nat)
    requires
        n >= 1,
    ensures
        1 <= split_n(s, n).len() <= n,
        forall|i: int| 0 <= i < split_n(s, n).len() - 1 ==> has_no_space(#[trigger] split_n(s, n)[i]),
    decreases n,
{
    if n > 1 {
        lemma_first_space(s);
        match first_space(s) {
            None => {},
            Some(k) => {
                let rest = s.skip(k + 1);
                lemma_split_shape(rest, (n - 1) as nat);
                let ps = split_n(s, n);
                assert(ps == seq![s.take(k)] + split_n(rest, (n - 1) as nat));
                assert forall|i: int| 0 <= i < ps.len() - 1 implies has_no_space(#[trigger] ps[i]) by {
                    if i == 0 {
                        assert(ps[0] == s.take(k));
                    } else {
                        assert(ps[i] == split_n(rest, (n - 1) as nat)[i - 1]);
                    }
                }
            },
        }
    }
}

proof fn lemma_non_empty_keeps(ps: Seq<Seq<u8>>)
    requires
        forall|i: int| 0 <= i < ps.len() ==> has_no_space(#[trigger] ps[i]),
    ensures
        non_empty(ps).len() <= ps.len(),
        forall|i: int| 0 <= i < non_empty(ps).len() ==> has_no_space(#[trigger] non_empty(ps)[i])
            && non_empty(ps)[i].len() > 0,
    decreases ps.len(),
{
    if ps.len() > 0 {
        let q = ps.drop_last();
        assert forall|i: int| 0 <= i < q.len() implies has_no_space(#[trigger] q[i]) by {
            assert(q[i] == ps[i]);
        }
        lemma_non_empty_keeps(q);
        if ps.last().len() > 0 {
            assert(has_no_space(ps[ps.len() - 1]));
        }
    }
}

proof fn lemma_non_empty_shape(ps: Seq<Seq<u8>>)
    requires
        forall|i: int| 0 <= i < ps.len() - 1 ==> has_no_space(#[trigger] ps[i]),
    ensures
        non_empty(ps).len() <= ps.len(),
        forall|i: int| 0 <= i < non_empty(ps).len() ==> (#[trigger] non_empty(ps)[i]).len() > 0,
        forall|i: int| 0 <= i < non_empty(ps).len() - 1 ==> has_no_space(#[trigger] non_empty(ps)[i]),
{
    if ps.len() > 0 {
        let q = ps.drop_last();
        assert forall|i: int| 0 <= i < q.len() implies has_no_space(#[trigger] q[i]) by {
            assert(q[i] == ps[i]);
        }
        lemma_non_empty_keeps(q);
        if ps.last().len() > 0 {
            let r = non_empty(ps);
            assert(r == non_empty(q).push(ps.last()));
            assert forall|i: int| 0 <= i < r.len() implies (#[trigger] r[i]).len() > 0 by {
                if i < non_empty(q).len() {
                    assert(r[i] == non_empty(q)[i]);
                }
            }
            assert forall|i: int| 0 <= i < r.len() - 1 implies has_no_space(#[trigger] r[i]) by {
                assert(r[i] == non_empty(q)[i]);
            }
        }
    }
}

proof fn lemma_leading_blank_of_prefix(t: Seq<u8>, n: int)
    requires
        leading_blank(t) == 0,
        0 <= n <= t.len(),
    ensures
        leading_blank(t.take(n)) == 0,
{
    let u = t.take(n);
    if u.len() >= 1 {
        assert(u[0] == t[0]);
    }
    if u.len() >= 2 {
        assert(u[1] == t[1]);
    }
    if u.len() >= 3 {
        assert(u[2] == t[2]);
    }
}

proof fn lemma_trim_start_clean(s: Seq<u8>)
    ensures
        leading_blank(trim_start(s)) == 0,
    decreases s.len(),
{
    if leading_blank(s) > 0 {
        lemma_trim_start_clean(s.skip(leading_blank(s)));
    }
}

proof fn lemma_trim_end_shape(s: Seq<u8>)
    ensures
        trailing_blank(trim_end(s)) == 0,
        trim_end(s).len() <= s.len(),
        trim_end(s) == s.take(trim_end(s).len() as int),
    decreases s.len(),
{
    if trailing_blank(s) > 0 {
        let u = s.take(s.len() - trailing_blank(s));
        lemma_trim_end_shape(u);
        assert(u.take(trim_end(u).len() as int) =~= s.take(trim_end(u).len() as int));
    } else {
        assert(s.take(s.len() as int) =~= s);
    }
}

/// Trimming twice is trimming once.
pub proof fn lemma_trim_idempotent(s: Seq<u8>)
    ensures
        trim(trim(s)) == trim(s),
{
    let a = trim_start(s);
    lemma_trim_start_clean(s);
    lemma_trim_end_shape(a);
    let t = trim_end(a);
    lemma_leading_blank_of_prefix(a, t.len() as int);
    assert(trim_start(t) == t);
    assert(trim_end(t) == t);
}

/// How a command line is cut: into one to nine pieces that joined with
/// single spaces give the trimmed line back, where only the last piece may
/// hold a space; so a command gets at most eight arguments, none empty, all
/// but the last free of spaces. A line cuts the same as its trimmed form.
pub proof fn lemma_line_args(line: Seq<u8>)
    ensures
        1 <= line_pieces(line).len() <= 9,
        join(line_pieces(line)) == trim(line),
        forall|i: int| 0 <= i < line_pieces(line).len() - 1 ==> has_no_space(#[trigger] line_pieces(line)[i]),
        line_args(line).len() <= 8,
        forall|i: int| 0 <= i < line_args(line).len() ==> (#[trigger] line_args(line)[i]).len() > 0,
        forall|i: int| 0 <= i < line_args(line).len() - 1 ==> has_no_space(#[trigger] line_args(line)[i]),
        line_pieces(trim(line)) == line_pieces(line),
        line_args(trim(line)) == line_args(line),
{
    let ps = line_pieces(line);
    lemma_split_shape(trim(line), 9);
    lemma_split_join(trim(line), 9);
    let rest = ps.drop_first();
    assert forall|i: int| 0 <= i < rest.len() - 1 implies has_no_space(#[trigger] rest[i]) by {
        assert(rest[i] == ps[i + 1]);
    }
    lemma_non_empty_shape(rest);
    lemma_trim_idempotent(line);
}

/// A byte that can belong to the UTF-8 encoding of a whitespace character:
/// the ASCII whitespace bytes (tab, line feed, vertical tab, form feed,
/// carriage return, space), the lead bytes 0xC2 and 0xE1 to 0xE3 of the
/// longer encodings, and continuation bytes.
pub open spec fn whitespace_encoding_byte(b: u8) -> bool {
    ||| b == 9 || b == 10 || b == 11 || b == 12 || b == 13 || b == 32
    ||| b == 0xC2 || b == 0xE1 || b == 0xE2 || b == 0xE3
    ||| 0x80 <= b <= 0xBF
}

proof fn lemma_trim_start_cut(s: Seq<u8>) -> (k: int)
    ensures
        0 <= k <= s.len(),
        trim_start(s) == s.skip(k),
        forall|i: int| 0 <= i < k ==> whitespace_encoding_byte(#[trigger] s[i]),
    decreases s.len(),
{
    let n = leading_blank(s);
    if n > 0 {
        let t = s.skip(n);
        let k1 = lemma_trim_start_cut(t);
        assert(t.skip(k1) =~= s.skip(n + k1));
        assert forall|i: int| 0 <= i < n + k1 implies whitespace_encoding_byte(#[trigger] s[i]) by {
            if i >= n {
                assert(s[i] == t[i - n]);
            }
        }
        n + k1
    } else {
        assert(s.skip(0) =~= s);
        0
    }
}

proof fn lemma_trim_end_cut(s: Seq<u8>) -> (m: int)
    ensures
        0 <= m <= s.len(),
        trim_end(s) == s.take(m),
        forall|i: int| m <= i < s.len() ==> whitespace_encoding_byte(#[trigger] s[i]),
    decreases s.len(),
{
    let n = trailing_blank(s);
    if n > 0 {
        let t = s.take(s.len() - n);
        let m1 = lemma_trim_end_cut(t);
        assert(t.take(m1) =~= s.take(m1));
        assert forall|i: int| m1 <= i < s.len() implies whitespace_encoding_byte(#[trigger] s[i]) by {
            if i < s.len() - n {
                assert(s[i] == t[i]);
            }
        }
        m1
    } else {
        assert(s.take(s.len() as int) =~= s);
        s.len() as int
    }
}

/// Trimming keeps a contiguous part of the line and removes only bytes of
/// whitespace encodings from its two ends: never a printable ASCII
/// character, nor any other byte below 0x80 but tab, line feed, vertical
/// tab, form feed, carriage return and space.
pub proof fn lemma_trim_removes_only_whitespace(s: Seq<u8>)
    ensures
        exists|lo: int, hi: int|
            #![trigger s.subrange(lo, hi)]
            0 <= lo <= hi <= s.len() && trim(s) == s.subrange(lo, hi) && (forall|i: int|
                0 <= i < lo ==> whitespace_encoding_byte(#[trigger] s[i])) && (forall|i: int|
                hi <= i < s.len() ==> whitespace_encoding_byte(#[trigger] s[i])),
{
    let lo = lemma_trim_start_cut(s);
    let t = s.skip(lo);
    let m = lemma_trim_end_cut(t);
    let hi = lo + m;
    assert(t.take(m) =~= s.subrange(lo, hi));
    assert forall|i: int| hi <= i < s.len() implies whitespace_encoding_byte(#[trigger] s[i]) by {
        assert(s[i] == t[i - lo]);
    }
    assert(trim(s) == s.subrange(lo, hi));
}

/// A line that starts and ends with an ASCII character other than
/// whitespace is its own trim.
pub proof fn lemma_trim_keeps_ascii_ends(s: Seq<u8>)
    requires
        s.len() > 0,
        s[0] < 0x80 && s[0] != 32 && !(9 <= s[0] <= 13),
        s.last() < 0x80 && s.last() != 32 && !(9 <= s.last() <= 13),
    ensures
        trim(s) == s,
{
    assert(trim_start(s) == s);
    assert(trim_end(s) == s);
}

/// Whitespace in front of a line does not change how it is trimmed: a
/// tab, line feed, vertical tab, form feed, carriage return or space, a
/// no-break space (U+00A0) or an ideographic space (U+3000).
pub proof fn lemma_trim_skips_leading_whitespace(s: Seq<u8>, b: u8)
    requires
        b == 9 || b == 10 || b == 11 || b == 12 || b == 13 || b == 32,
    ensures
        trim(seq![b] + s) == trim(s),
        trim(seq![0xC2u8, 0xA0u8] + s) == trim(s),
        trim(seq![0xE3u8, 0x80u8, 0x80u8] + s) == trim(s),
{
    assert((seq![b] + s).skip(1) =~= s);
    assert((seq![0xC2u8, 0xA0u8] + s).skip(2) =~= s);
    assert((seq![0xE3u8, 0x80u8, 0x80u8] + s).skip(3) =~= s);
}

} // verus!
