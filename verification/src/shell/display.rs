//! The `color` command.
use super::{colored, emit, emit_byte, emit_str, join, views, Output};
use super::builtin::join_from;
use crate::framebuffer::{Color, RED, WHITE};
use vstd::prelude::*;
use vstd::string::StringSliceAdditionalSpecFns;

verus! {

pub open spec fn is_digit(b: u8) -> bool {
    48 <= b <= 57
}

pub open spec fn all_digits(s: Seq<u8>) -> bool {
    forall|i: int| 0 <= i < s.len() ==> is_digit(#[trigger] s[i])
}

/// The value of a string of decimal digits (0 for the empty string).
pub open spec fn decimal(s: Seq<u8>) -> int
    decreases s.len(),
{
    if s.len() == 0 {
        0
    } else {
        10 * decimal(s.drop_last()) + (s.last() - 48)
    }
}

/// Whether reading `s` digit by digit into a 16-bit accumulator never
/// overflows: every all-digit prefix has a value below 65536.
pub open spec fn fits_u16_while_reading(s: Seq<u8>) -> bool {
    forall|k: int| 0 <= k <= s.len() && all_digits(#[trigger] s.take(k)) ==> decimal(s.take(k)) <= u16::MAX
}

/// The byte value a colour component names: a string of decimal digits
/// (the empty string counts as 0) whose value is at most 255.
pub open spec fn component(s: Seq<u8>) -> Option<u8> {
    if all_digits(s) && decimal(s) <= 255 {
        Some(decimal(s) as u8)
    } else {
        None
    }
}

/// Reads a colour component.
pub fn parse_u8(s: &[u8]) -> (r: Option<u8>)
    requires
        fits_u16_while_reading(s@),
    ensures
        r == component(s@),
{
    let mut acc: u16 = 0;
    let mut i: usize = 0;
    assert(s@.take(0) =~= Seq::<u8>::empty());
    while i < s.len()
        invariant
            i <= s@.len(),
            fits_u16_while_reading(s@),
            all_digits(s@.take(i as int)),
            acc == decimal(s@.take(i as int)),
        decreases s@.len() - i,
    {
        let c = s[i];
        if c < 48 || c > 57 {
            assert(s@[i as int] == c);
            assert(!all_digits(s@));
            return None;
        }
        assert(s@.take(i + 1).drop_last() =~= s@.take(i as int));
        assert(all_digits(s@.take(i + 1))) by {
            assert forall|j: int| 0 <= j < i + 1 implies is_digit(#[trigger] s@.take(i + 1)[j]) by {
                if j < i {
                    assert(s@.take(i + 1)[j] == s@.take(i as int)[j]);
                }
            }
        }
        assert(decimal(s@.take(i + 1)) <= u16::MAX);
        acc = acc * 10 + (c - 48) as u16;
        i = i + 1;
    }
    assert(s@.take(s@.len() as int) =~= s@);
    if acc <= 255 {
        Some(acc as u8)
    } else {
        None
    }
}

/// Whether `color` can read its three components without overflow.
pub open spec fn color_args_ok(args: Seq<Seq<u8>>) -> bool {
    args.len() >= 3 ==> fits_u16_while_reading(args[0]) && fits_u16_while_reading(args[1])
        && fits_u16_while_reading(args[2])
}

/// What `color` prints.
pub open spec fn color_text(args: Seq<Seq<u8>>) -> Seq<(u8, Color)> {
    if args.len() < 3 {
        colored("Usage: color <r> <g> <b> [text]\n".spec_bytes(), WHITE)
    } else {
        match (component(args[0]), component(args[1]), component(args[2])) {
            (Some(r), Some(g), Some(b)) => {
                let text = if args.len() > 3 {
                    join(args.skip(3))
                } else {
                    "Color sample".spec_bytes()
                };
                colored(text, (r, g, b)) + colored(seq![10u8], WHITE)
            },
            _ => colored("Invalid values (0-255)\n".spec_bytes(), RED),
        }
    }
}

/// `color <r> <g> <b> [text]`: prints the text (or a sample) in that colour.
pub fn color(args: &Vec<Vec<u8>>) -> (out: Output)
    requires
        color_args_ok(views(args@)),
    ensures
        out@ == color_text(views(args@)),
{
    let mut out: Output = Vec::new();
    if args.len() < 3 {
        emit_str(&mut out, "Usage: color <r> <g> <b> [text]\n", WHITE);
        assert(out@ =~= color_text(views(args@)));
        return out;
    }
    let pr = parse_u8(args[0].as_slice());
    let pg = parse_u8(args[1].as_slice());
    let pb = parse_u8(args[2].as_slice());
    match (pr, pg, pb) {
        (Some(r), Some(g), Some(b)) => {
            let c: Color = (r, g, b);
            if args.len() > 3 {
                let text = join_from(args, 3);
                emit(&mut out, text.as_slice(), c);
            } else {
                emit_str(&mut out, "Color sample", c);
            }
            emit_byte(&mut out, 10, WHITE);
        },
        _ => {
            emit_str(&mut out, "Invalid values (0-255)\n", RED);
        },
    }
    assert(out@ =~= color_text(views(args@)));
    out
}

} // verus!

verus! {

/// Whether reading `s` as a colour component stays within the 16-bit
/// accumulator (see [`fits_u16_while_reading`]).
pub fn reads_without_overflow(s: &[u8]) -> (r: bool)
    ensures
        r == fits_u16_while_reading(s@),
{
    let mut acc: u32 = 0;
    let mut i: usize = 0;
    assert(s@.take(0) =~= Seq::<u8>::empty());
    while i < s.len()
        invariant
            i <= s@.len(),
            all_digits(s@.take(i as int)),
            acc == decimal(s@.take(i as int)),
            acc <= u16::MAX,
            forall|k: int| 0 <= k <= i ==> decimal(#[trigger] s@.take(k)) <= u16::MAX || !all_digits(s@.take(k)),
        decreases s@.len() - i,
    {
        let c = s[i];
        if c < 48 || c > 57 {
            assert forall|k: int| 0 <= k <= s@.len() && all_digits(#[trigger] s@.take(k)) implies decimal(s@.take(k))
                <= u16::MAX by {
                if k > i {
                    assert(s@.take(k)[i as int] == c);
                }
            }
            return true;
        }
        assert(s@.take(i + 1).drop_last() =~= s@.take(i as int));
        assert(all_digits(s@.take(i + 1))) by {
            assert forall|j: int| 0 <= j < i + 1 implies is_digit(#[trigger] s@.take(i + 1)[j]) by {
                if j < i {
                    assert(s@.take(i + 1)[j] == s@.take(i as int)[j]);
                }
            }
        }
        acc = acc * 10 + (c - 48) as u32;
        i = i + 1;
        if acc > 65535 {
            assert(!fits_u16_while_reading(s@)) by {
                assert(all_digits(s@.take(i as int)));
            }
            return false;
        }
    }
    assert(s@.take(s@.len() as int) =~= s@);
    true
}

} // verus!
