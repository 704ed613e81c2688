//! The PS/2 keyboard's line editor: it tracks the shift keys and the line
//! being typed, and says what each scancode means for the screen.
use super::port::{Port, PortRead};
use crate::keyboard::{key_char, scancode_to_char};
use vstd::prelude::*;

verus! {

pub const KBD_DATA: u16 = 0x60;
pub const KBD_STATUS: u16 = 0x64;

/// The longest line, in bytes, that the editor accepts.
pub const MAX_LINE: usize = 255;

pub const SC_LEFT_SHIFT: u8 = 0x2A;
pub const SC_RIGHT_SHIFT: u8 = 0x36;
pub const SC_LEFT_SHIFT_RELEASE: u8 = 0xAA;
pub const SC_RIGHT_SHIFT_RELEASE: u8 = 0xB6;
pub const SC_BACKSPACE: u8 = 0x0E;
pub const SC_ENTER: u8 = 0x1C;

/// The controller's data port, where scancodes are read.
pub fn port_data() -> (p: Port<u8>)
    ensures
        p.number() == KBD_DATA,
{
    Port::new(KBD_DATA)
}

/// The controller's status port.
pub fn port_status() -> (p: PortRead<u8>)
    ensures
        p.number() == KBD_STATUS,
{
    PortRead::new(KBD_STATUS)
}

/// Whether the status byte of the controller says a scancode is waiting.
pub fn output_full(status: u8) -> (r: bool)
    ensures
        r == (status & 1 != 0),
{
    status & 1 != 0
}

/// What a scancode asks of the screen and the shell.
#[derive(Debug)]
pub enum HandleResult {
    /// A character was added to the line: echo it.
    Char(char),
    /// The last character was erased.
    Backspace,
    /// The line was finished: run it.
    Enter(Vec<u8>),
}

/// The editor's state: the line typed so far and whether shift is held.
pub struct Ps2State {
    input: Vec<u8>,
    shift: bool,
}

impl View for Ps2State {
    type V = (Seq<u8>, bool);

    closed spec fn view(&self) -> (Seq<u8>, bool) {
        (self.input@, self.shift)
    }
}

impl Ps2State {
    /// An empty line with shift released.
    pub fn new() -> (s: Self)
        ensures
            s@.0 == Seq::<u8>::empty(),
            !s@.1,
    {
        Ps2State { input: Vec::new(), shift: false }
    }

    /// The line typed so far.
    pub fn input(&self) -> (r: &[u8])
        ensures
            r@ == self@.0,
    {
        self.input.as_slice()
    }

    /// Whether shift is held.
    pub fn shift(&self) -> (r: bool)
        ensures
            r == self@.1,
    {
        self.shift
    }
}

/// Feeds one scancode to the editor.
///
/// Shift presses and releases only change the shift state. Backspace
/// erases the last character, if there is one. Enter hands over the line
/// and starts a new one. Any other key that yields a character appends it,
/// while the line is shorter than 255 bytes.
pub fn handle_scancode(state: &mut Ps2State, sc: u8) -> (r: Option<HandleResult>)
    ensures
        old(state)@.0.len() <= MAX_LINE ==> final(state)@.0.len() <= MAX_LINE,
        (sc == SC_LEFT_SHIFT || sc == SC_RIGHT_SHIFT) ==> r is None && final(state)@ == (old(state)@.0, true),
        (sc == SC_LEFT_SHIFT_RELEASE || sc == SC_RIGHT_SHIFT_RELEASE) ==> r is None && final(state)@ == (
            old(state)@.0,
            false,
        ),
        sc == SC_BACKSPACE && old(state)@.0.len() == 0 ==> r is None && final(state)@ == old(state)@,
        sc == SC_BACKSPACE && old(state)@.0.len() > 0 ==> r == Some(HandleResult::Backspace) && final(state)@ == (
            old(state)@.0.drop_last(),
            old(state)@.1,
        ),
        sc == SC_ENTER ==> (r matches Some(HandleResult::Enter(line)) && line@ == old(state)@.0) && final(state)@ == (
            Seq::<u8>::empty(),
            old(state)@.1,
        ),
        !(sc == SC_LEFT_SHIFT || sc == SC_RIGHT_SHIFT || sc == SC_LEFT_SHIFT_RELEASE || sc
            == SC_RIGHT_SHIFT_RELEASE || sc == SC_BACKSPACE || sc == SC_ENTER) ==> match key_char(
            sc,
            old(state)@.1,
        ) {
            Some(c) => if old(state)@.0.len() < MAX_LINE {
                r == Some(HandleResult::Char(c as char)) && final(state)@ == (old(state)@.0.push(c), old(state)@.1)
            } else {
                r is None && final(state)@ == old(state)@
            },
            None => r is None && final(state)@ == old(state)@,
        },
{
    if sc == SC_LEFT_SHIFT || sc == SC_RIGHT_SHIFT {
        state.shift = true;
        None
    } else if sc == SC_LEFT_SHIFT_RELEASE || sc == SC_RIGHT_SHIFT_RELEASE {
        state.shift = false;
        None
    } else if sc == SC_BACKSPACE {
        if state.input.len() == 0 {
            return None;
        }
        state.input.pop();
        Some(HandleResult::Backspace)
    } else if sc == SC_ENTER {
        let mut line: Vec<u8> = Vec::new();
        std::mem::swap(&mut line, &mut state.input);
        Some(HandleResult::Enter(line))
    } else {
        match scancode_to_char(sc, state.shift) {
            Some(c) => {
                if state.input.len() < MAX_LINE {
                    state.input.push(c);
                    Some(HandleResult::Char(c as char))
                } else {
                    None
                }
            },
            None => None,
        }
    }
}

/// Typing a character and erasing it leaves the line as it was.
pub proof fn lemma_backspace_undoes_char(line: Seq<u8>, c: u8)
    ensures
        line.push(c).drop_last() == line,
        line.push(c).len() > 0,
{
    assert(line.push(c).drop_last() =~= line);
}

} // verus!
