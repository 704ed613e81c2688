//! PS/2 scancode set 1 to ASCII, US layout.
use vstd::prelude::*;

verus! {

/// The US layout without shift, indexed by make code; 0 where the key
/// yields no character.
pub open spec fn keymap_normal() -> Seq<u8> {
    seq![0, 27, 49, 50, 51, 52, 53, 54, 55, 56, 57, 48, 45, 61, 8, 9, 113, 119, 101, 114, 116, 121, 117, 105, 111, 112, 91, 93, 10, 0, 97, 115, 100, 102, 103, 104, 106, 107, 108, 59, 39, 96, 0, 92, 122, 120, 99, 118, 98, 110, 109, 44, 46, 47, 0, 42, 0, 32]
}

/// The US layout with shift held.
pub open spec fn keymap_shifted() -> Seq<u8> {
    seq![0, 27, 33, 64, 35, 36, 37, 94, 38, 42, 40, 41, 95, 43, 8, 9, 81, 87, 69, 82, 84, 89, 85, 73, 79, 80, 123, 125, 10, 0, 65, 83, 68, 70, 71, 72, 74, 75, 76, 58, 34, 126, 0, 124, 90, 88, 67, 86, 66, 78, 77, 60, 62, 63, 0, 42, 0, 32]
}

pub open spec fn keymap(shift: bool) -> Seq<u8> {
    if shift {
        keymap_shifted()
    } else {
        keymap_normal()
    }
}

/// The printable character a scancode yields: none for a key release (0x80
/// and up), for a code past the table, or for a key whose table entry is not
/// printable (below 0x20: no character, Esc, Backspace, Tab, Enter).
pub open spec fn key_char(sc: u8, shift: bool) -> Option<u8> {
    if sc >= 0x80 || sc >= keymap(shift).len() || keymap(shift)[sc as int] < 0x20 {
        None
    } else {
        Some(keymap(shift)[sc as int])
    }
}

/// The keys of the US layout, scancode set 1, as printed on the keycaps:
/// each printable key without and with shift. Esc, Backspace, Tab, Enter,
/// Ctrl, the shift keys and Alt give no character, nor does any code from
/// 0x3A on (the keys past the space bar and every key release).
pub proof fn lemma_us_layout()
    ensures
        key_char(0x02, false) == Some('1' as u8),
        key_char(0x02, true) == Some('!' as u8),
        key_char(0x03, false) == Some('2' as u8),
        key_char(0x03, true) == Some('@' as u8),
        key_char(0x04, false) == Some('3' as u8),
        key_char(0x04, true) == Some('#' as u8),
        key_char(0x05, false) == Some('4' as u8),
        key_char(0x05, true) == Some('$' as u8),
        key_char(0x06, false) == Some('5' as u8),
        key_char(0x06, true) == Some('%' as u8),
        key_char(0x07, false) == Some('6' as u8),
        key_char(0x07, true) == Some('^' as u8),
        key_char(0x08, false) == Some('7' as u8),
        key_char(0x08, true) == Some('&' as u8),
        key_char(0x09, false) == Some('8' as u8),
        key_char(0x09, true) == Some('*' as u8),
        key_char(0x0A, false) == Some('9' as u8),
        key_char(0x0A, true) == Some('(' as u8),
        key_char(0x0B, false) == Some('0' as u8),
        key_char(0x0B, true) == Some(')' as u8),
        key_char(0x0C, false) == Some('-' as u8),
        key_char(0x0C, true) == Some('_' as u8),
        key_char(0x0D, false) == Some('=' as u8),
        key_char(0x0D, true) == Some('+' as u8),
        key_char(0x10, false) == Some('q' as u8),
        key_char(0x10, true) == Some('Q' as u8),
        key_char(0x11, false) == Some('w' as u8),
        key_char(0x11, true) == Some('W' as u8),
        key_char(0x12, false) == Some('e' as u8),
        key_char(0x12, true) == Some('E' as u8),
        key_char(0x13, false) == Some('r' as u8),
        key_char(0x13, true) == Some('R' as u8),
        key_char(0x14, false) == Some('t' as u8),
        key_char(0x14, true) == Some('T' as u8),
        key_char(0x15, false) == Some('y' as u8),
        key_char(0x15, true) == Some('Y' as u8),
        key_char(0x16, false) == Some('u' as u8),
        key_char(0x16, true) == Some('U' as u8),
        key_char(0x17, false) == Some('i' as u8),
        key_char(0x17, true) == Some('I' as u8),
        key_char(0x18, false) == Some('o' as u8),
        key_char(0x18, true) == Some('O' as u8),
        key_char(0x19, false) == Some('p' as u8),
        key_char(0x19, true) == Some('P' as u8),
        key_char(0x1A, false) == Some('[' as u8),
        key_char(0x1A, true) == Some('{' as u8),
        key_char(0x1B, false) == Some(']' as u8),
        key_char(0x1B, true) == Some('}' as u8),
        key_char(0x1E, false) == Some('a' as u8),
        key_char(0x1E, true) == Some('A' as u8),
        key_char(0x1F, false) == Some('s' as u8),
        key_char(0x1F, true) == Some('S' as u8),
        key_char(0x20, false) == Some('d' as u8),
        key_char(0x20, true) == Some('D' as u8),
        key_char(0x21, false) == Some('f' as u8),
        key_char(0x21, true) == Some('F' as u8),
        key_char(0x22, false) == Some('g' as u8),
        key_char(0x22, true) == Some('G' as u8),
        key_char(0x23, false) == Some('h' as u8),
        key_char(0x23, true) == Some('H' as u8),
        key_char(0x24, false) == Some('j' as u8),
        key_char(0x24, true) == Some('J' as u8),
        key_char(0x25, false) == Some('k' as u8),
        key_char(0x25, true) == Some('K' as u8),
        key_char(0x26, false) == Some('l' as u8),
        key_char(0x26, true) == Some('L' as u8),
        key_char(0x27, false) == Some(';' as u8),
        key_char(0x27, true) == Some(':' as u8),
        key_char(0x28, false) == Some('\'' as u8),
        key_char(0x28, true) == Some('"' as u8),
        key_char(0x29, false) == Some('`' as u8),
        key_char(0x29, true) == Some('~' as u8),
        key_char(0x2B, false) == Some('\\' as u8),
        key_char(0x2B, true) == Some('|' as u8),
        key_char(0x2C, false) == Some('z' as u8),
        key_char(0x2C, true) == Some('Z' as u8),
        key_char(0x2D, false) == Some('x' as u8),
        key_char(0x2D, true) == Some('X' as u8),
        key_char(0x2E, false) == Some('c' as u8),
        key_char(0x2E, true) == Some('C' as u8),
        key_char(0x2F, false) == Some('v' as u8),
        key_char(0x2F, true) == Some('V' as u8),
        key_char(0x30, false) == Some('b' as u8),
        key_char(0x30, true) == Some('B' as u8),
        key_char(0x31, false) == Some('n' as u8),
        key_char(0x31, true) == Some('N' as u8),
        key_char(0x32, false) == Some('m' as u8),
        key_char(0x32, true) == Some('M' as u8),
        key_char(0x33, false) == Some(',' as u8),
        key_char(0x33, true) == Some('<' as u8),
        key_char(0x34, false) == Some('.' as u8),
        key_char(0x34, true) == Some('>' as u8),
        key_char(0x35, false) == Some('/' as u8),
        key_char(0x35, true) == Some('?' as u8),
        key_char(0x37, false) == Some('*' as u8),
        key_char(0x37, true) == Some('*' as u8),
        key_char(0x39, false) == Some(' ' as u8),
        key_char(0x39, true) == Some(' ' as u8),
        key_char(0x00, false) == None::<u8> && key_char(0x00, true) == None::<u8>,
        key_char(0x01, false) == None::<u8> && key_char(0x01, true) == None::<u8>,
        key_char(0x0E, false) == None::<u8> && key_char(0x0E, true) == None::<u8>,
        key_char(0x0F, false) == None::<u8> && key_char(0x0F, true) == None::<u8>,
        key_char(0x1C, false) == None::<u8> && key_char(0x1C, true) == None::<u8>,
        key_char(0x1D, false) == None::<u8> && key_char(0x1D, true) == None::<u8>,
        key_char(0x2A, false) == None::<u8> && key_char(0x2A, true) == None::<u8>,
        key_char(0x36, false) == None::<u8> && key_char(0x36, true) == None::<u8>,
        key_char(0x38, false) == None::<u8> && key_char(0x38, true) == None::<u8>,
        forall|sc: u8, shift: bool| sc >= 0x3A ==> #[trigger] key_char(sc, shift) == None::<u8>,
{
}

/// Shift turns each letter key's lower-case letter into the upper-case one.
pub proof fn lemma_shift_capitalises_letters(sc: u8)
    requires
        key_char(sc, false) matches Some(c) && 'a' as u8 <= c <= 'z' as u8,
    ensures
        key_char(sc, true) == Some((key_char(sc, false)->0 - 32) as u8),
{
    assert(sc < 58);
    assert(0x10 <= sc <= 0x19 || 0x1E <= sc <= 0x26 || 0x2C <= sc <= 0x32);
}

/// The ASCII byte of a PS/2 set-1 scancode, or `None` if it is not a
/// printable key press.
pub fn scancode_to_char(sc: u8, shift: bool) -> (r: Option<u8>)
    ensures
        r == key_char(sc, shift),
{
    if sc >= 0x80 {
        return None;
    }
    let normal: [u8; 58] = [0, 27, 49, 50, 51, 52, 53, 54, 55, 56, 57, 48, 45, 61, 8, 9, 113, 119, 101, 114, 116, 121, 117, 105, 111, 112, 91, 93, 10, 0, 97, 115, 100, 102, 103, 104, 106, 107, 108, 59, 39, 96, 0, 92, 122, 120, 99, 118, 98, 110, 109, 44, 46, 47, 0, 42, 0, 32];
    let shifted: [u8; 58] = [0, 27, 33, 64, 35, 36, 37, 94, 38, 42, 40, 41, 95, 43, 8, 9, 81, 87, 69, 82, 84, 89, 85, 73, 79, 80, 123, 125, 10, 0, 65, 83, 68, 70, 71, 72, 74, 75, 76, 58, 34, 126, 0, 124, 90, 88, 67, 86, 66, 78, 77, 60, 62, 63, 0, 42, 0, 32];
    assert(normal@ =~= keymap_normal());
    assert(shifted@ =~= keymap_shifted());
    let table: &[u8; 58] = if shift {
        &shifted
    } else {
        &normal
    };
    if (sc as usize) >= 58 {
        return None;
    }
    let c = table[sc as usize];
    if c >= 0x20 {
        Some(c)
    } else {
        None
    }
}

} // verus!

verus! {

/// The first line editor: a fixed 256-byte buffer that keeps at most 255
/// bytes. (The kernel's keyboard path uses [`crate::drivers::ps2`]; this
/// one answers with what to do rather than a [`crate::drivers::ps2::HandleResult`].)
pub struct KeyboardState {
    shift: bool,
    buf: [u8; 256],
    len: usize,
}

impl View for KeyboardState {
    type V = (Seq<u8>, bool);

    closed spec fn view(&self) -> (Seq<u8>, bool) {
        (self.buf@.take(self.len as int), self.shift)
    }
}

/// What the editor asks for after a scancode.
#[derive(PartialEq, Eq, Clone, Debug)]
pub enum KeyAction {
    Nothing,
    /// Erase the character left of the cursor on screen.
    Erase,
    /// Print this character.
    Echo(u8),
    /// Print a newline, run this line, then print the prompt.
    Submit(Vec<u8>),
}

impl KeyboardState {
    pub closed spec fn inv(&self) -> bool {
        self.len <= 255
    }

    pub fn new() -> (s: Self)
        ensures
            s.inv(),
            s@.0 == Seq::<u8>::empty(),
            !s@.1,
    {
        let s = KeyboardState { shift: false, buf: [0u8; 256], len: 0 };
        assert(s@.0 =~= Seq::<u8>::empty());
        s
    }
}

/// Feeds one scancode to the editor: shift keys change the shift state,
/// backspace drops the last byte, enter hands over the line, and a key with
/// a character appends it while the line is shorter than 255 bytes.
pub fn handle_scancode(state: &mut KeyboardState, sc: u8) -> (r: KeyAction)
    requires
        old(state).inv(),
    ensures
        final(state).inv(),
        (sc == 0x2A || sc == 0x36) ==> r == KeyAction::Nothing && final(state)@ == (old(state)@.0, true),
        (sc == 0xAA || sc == 0xB6) ==> r == KeyAction::Nothing && final(state)@ == (old(state)@.0, false),
        sc == 0x0E && old(state)@.0.len() == 0 ==> r == KeyAction::Nothing && final(state)@ == old(state)@,
        sc == 0x0E && old(state)@.0.len() > 0 ==> r == KeyAction::Erase && final(state)@ == (
            old(state)@.0.drop_last(),
            old(state)@.1,
        ),
        sc == 0x1C ==> (r matches KeyAction::Submit(line) && line@ == old(state)@.0) && final(state)@ == (
            Seq::<u8>::empty(),
            old(state)@.1,
        ),
        !(sc == 0x2A || sc == 0x36 || sc == 0xAA || sc == 0xB6 || sc == 0x0E || sc == 0x1C) ==> match key_char(
            sc,
            old(state)@.1,
        ) {
            Some(c) => if old(state)@.0.len() < 255 {
                r == KeyAction::Echo(c) && final(state)@ == (old(state)@.0.push(c), old(state)@.1)
            } else {
                r == KeyAction::Nothing && final(state)@ == old(state)@
            },
            None => r == KeyAction::Nothing && final(state)@ == old(state)@,
        },
{
    if sc == 0x2A || sc == 0x36 {
        state.shift = true;
        KeyAction::Nothing
    } else if sc == 0xAA || sc == 0xB6 {
        state.shift = false;
        KeyAction::Nothing
    } else if sc == 0x0E {
        if state.len > 0 {
            state.len = state.len - 1;
            assert(state.buf@.take(state.len as int) =~= old(state).buf@.take(old(state).len as int).drop_last());
            KeyAction::Erase
        } else {
            KeyAction::Nothing
        }
    } else if sc == 0x1C {
        let mut line: Vec<u8> = Vec::new();
        let mut i: usize = 0;
        while i < state.len
            invariant
                i <= state.len <= 255,
                line@ == state.buf@.take(i as int),
            decreases state.len - i,
        {
            line.push(state.buf[i]);
            i = i + 1;
            assert(line@ =~= state.buf@.take(i as int));
        }
        state.len = 0;
        assert(state.buf@.take(0) =~= Seq::<u8>::empty());
        KeyAction::Submit(line)
    } else {
        match scancode_to_char(sc, state.shift) {
            Some(c) => {
                if state.len < 255 {
                    let ghost before = state.buf@.take(state.len as int);
                    state.buf[state.len] = c;
                    state.len = state.len + 1;
                    assert(state.buf@.take(state.len as int) =~= before.push(c));
                    KeyAction::Echo(c)
                } else {
                    KeyAction::Nothing
                }
            },
            None => KeyAction::Nothing,
        }
    }
}

} // verus!
