//! The byte sequences a terminal understands: cursor and colour controls,
//! and the half-block glyph that shows two pixels in one character cell.

use vstd::prelude::*;

verus! {

/// Moves the cursor to the top left corner: `ESC [ H`.
pub open spec fn home() -> Seq<u8> {
    seq![27u8, 91u8, 72u8]
}

/// Resets all colours: `ESC [ 0 m`.
pub open spec fn reset() -> Seq<u8> {
    seq![27u8, 91u8, 48u8, 109u8]
}

/// Ends a line of cells: a colour reset, a carriage return and a line feed.
pub open spec fn line_break() -> Seq<u8> {
    reset() + seq![13u8, 10u8]
}

/// The upper half block, U+2580, in UTF-8.
pub open spec fn half_block() -> Seq<u8> {
    seq![226u8, 150u8, 128u8]
}

/// The decimal digits of `n`, without leading zeros.
pub open spec fn decimal(n: u8) -> Seq<u8> {
    if n < 10 {
        seq![(48 + n) as u8]
    } else if n < 100 {
        seq![(48 + n / 10) as u8, (48 + n % 10) as u8]
    } else {
        seq![(48 + n / 100) as u8, (48 + (n / 10) % 10) as u8, (48 + n % 10) as u8]
    }
}

/// Selects palette colour `fg` for the foreground and `bg` for the
/// background: `ESC [ 38 ; 5 ; fg m ESC [ 48 ; 5 ; bg m`.
pub open spec fn select_colors(fg: u8, bg: u8) -> Seq<u8> {
    seq![27u8, 91u8, 51u8, 56u8, 59u8, 53u8, 59u8] + decimal(fg) + seq![109u8] + seq![
        27u8,
        91u8,
        52u8,
        56u8,
        59u8,
        53u8,
        59u8,
    ] + decimal(bg) + seq![109u8]
}

/// The byte `b` occurs nowhere in `s`.
pub open spec fn free_of(s: Seq<u8>, b: u8) -> bool {
    forall|i: int| 0 <= i < s.len() ==> s[i] != b
}

/// What occurs in neither of two texts does not occur in the two put together.
pub proof fn lemma_free_of_concat(a: Seq<u8>, b: Seq<u8>, byte: u8)
    requires
        free_of(a, byte),
        free_of(b, byte),
    ensures
        free_of(a + b, byte),
{
}

/// The controls that make up a frame are free of the letter `J`, the final
/// byte of every erase control.
pub proof fn lemma_controls_free_of_erase(fg: u8, bg: u8)
    ensures
        free_of(home(), 74),
        free_of(reset(), 74),
        free_of(line_break(), 74),
        free_of(half_block(), 74),
        free_of(select_colors(fg, bg), 74),
{
    assert(free_of(decimal(fg), 74));
    assert(free_of(decimal(bg), 74));
}

/// Appends `home()`.
pub fn push_home(out: &mut Vec<u8>)
    ensures
        final(out)@ == old(out)@ + home(),
{
    out.push(27);
    out.push(91);
    out.push(72);
    assert(out@ =~= old(out)@ + home());
}

/// Appends `reset()`.
pub fn push_reset(out: &mut Vec<u8>)
    ensures
        final(out)@ == old(out)@ + reset(),
{
    out.push(27);
    out.push(91);
    out.push(48);
    out.push(109);
    assert(out@ =~= old(out)@ + reset());
}

/// Appends `line_break()`.
pub fn push_line_break(out: &mut Vec<u8>)
    ensures
        final(out)@ == old(out)@ + line_break(),
{
    push_reset(out);
    out.push(13);
    out.push(10);
    assert(out@ =~= old(out)@ + line_break());
}

/// Appends `half_block()`.
pub fn push_half_block(out: &mut Vec<u8>)
    ensures
        final(out)@ == old(out)@ + half_block(),
{
    out.push(226);
    out.push(150);
    out.push(128);
    assert(out@ =~= old(out)@ + half_block());
}

/// Appends `decimal(n)`.
pub fn push_decimal(out: &mut Vec<u8>, n: u8)
    ensures
        final(out)@ == old(out)@ + decimal(n),
{
    if n >= 100 {
        out.push(48 + n / 100);
    }
    if n >= 10 {
        out.push(48 + (n / 10) % 10);
    }
    out.push(48 + n % 10);
    assert(out@ =~= old(out)@ + decimal(n));
}

/// Appends `select_colors(fg, bg)`.
pub fn push_select_colors(out: &mut Vec<u8>, fg: u8, bg: u8)
    ensures
        final(out)@ == old(out)@ + select_colors(fg, bg),
{
    out.push(27);
    out.push(91);
    out.push(51);
    out.push(56);
    out.push(59);
    out.push(53);
    out.push(59);
    let ghost before_fg = out@;
    push_decimal(out, fg);
    out.push(109);
    out.push(27);
    out.push(91);
    out.push(52);
    out.push(56);
    out.push(59);
    out.push(53);
    out.push(59);
    let ghost before_bg = out@;
    push_decimal(out, bg);
    out.push(109);
    assert(before_fg =~= old(out)@ + seq![27u8, 91u8, 51u8, 56u8, 59u8, 53u8, 59u8]);
    assert(before_bg =~= before_fg + decimal(fg) + seq![109u8] + seq![27u8, 91u8, 52u8, 56u8, 59u8, 53u8, 59u8]);
    assert(out@ =~= old(out)@ + select_colors(fg, bg));
}

} // verus!
