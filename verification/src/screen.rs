//! The control sequences that the editor draws with.
//!
//! Each sequence is stated as the characters it is made of; the functions
//! that produce them call `termion`.
use vstd::prelude::*;

verus! {

/// What the screen reported before a key is handled: the row the cursor is
/// on and the number of rows of the terminal, both counted from 1.
#[derive(Clone, Copy, Debug)]
pub struct Screen {
    pub row: u16,
    pub height: u16,
}

/// `n` as a screen coordinate: the nearest value that fits 16 bits.
pub open spec fn clamp16(n: int) -> u16 {
    if n <= 0 {
        0u16
    } else if n >= 0xFFFF {
        0xFFFFu16
    } else {
        n as u16
    }
}

/// The decimal digit for `d`, which is below ten.
pub open spec fn digit(d: nat) -> char {
    ((0x30 + d) as u8) as char
}

/// `n` written in decimal, without leading zeros.
pub open spec fn decimal(n: nat) -> Seq<char>
    decreases n,
{
    if n < 10 {
        seq![digit(n)]
    } else {
        decimal(n / 10).push(digit(n % 10))
    }
}

/// Moves the cursor to column `x` of row `y`.
pub open spec fn goto_sequence(x: u16, y: u16) -> Seq<char> {
    "\x1b["@ + decimal(y as nat) + ";"@ + decimal(x as nat) + "H"@
}

/// Moves the cursor `n` cells to the left.
pub open spec fn left_sequence(n: u16) -> Seq<char> {
    "\x1b["@ + decimal(n as nat) + "D"@
}

/// Moves the cursor `n` cells to the right.
pub open spec fn right_sequence(n: u16) -> Seq<char> {
    "\x1b["@ + decimal(n as nat) + "C"@
}

/// Blanks the row the cursor is on.
pub open spec fn clear_line_sequence() -> Seq<char> {
    "\x1b[2K"@
}

/// Blanks everything behind the cursor.
pub open spec fn clear_after_cursor_sequence() -> Seq<char> {
    "\x1b[J"@
}

/// Blanks the whole screen.
pub open spec fn clear_all_sequence() -> Seq<char> {
    "\x1b[2J"@
}

/// Ends a row and starts the next one.
pub open spec fn line_break() -> Seq<char> {
    "\r\n"@
}

/// The colours of a trigger that is not chosen, and of the description of
/// the one that is: white on light blue.
pub open spec fn trigger_colors() -> Seq<char> {
    "\x1b[38;5;7m"@ + "\x1b[48;5;12m"@
}

/// The colours of a description that is not chosen, and of the trigger of
/// the one that is: black on cyan.
pub open spec fn description_colors() -> Seq<char> {
    "\x1b[38;5;0m"@ + "\x1b[48;5;6m"@
}

/// Back to the terminal's own colours.
pub open spec fn reset_colors() -> Seq<char> {
    "\x1b[39m"@ + "\x1b[49m"@
}

/// `n` as a screen coordinate.
pub fn saturate(n: usize) -> (r: u16)
    ensures
        r == clamp16(n as int),
{
    if n >= 0xFFFF {
        0xFFFFu16
    } else {
        n as u16
    }
}

/// The sum of two coordinates and a count, as a screen coordinate.
pub fn saturating_sum(a: u16, b: u16, c: usize) -> (r: u16)
    ensures
        r == clamp16(a + b + c),
{
    let c16: u16 = saturate(c);
    let sum: u32 = a as u32 + b as u32 + c16 as u32;
    if sum >= 0xFFFF {
        0xFFFFu16
    } else {
        sum as u16
    }
}

/// `String::from` on termion's `cursor::Goto`: the escape character and an
/// opening bracket, the row in decimal, a semicolon, the column in decimal,
/// and the letter H.
#[verifier::external_body]
pub(crate) fn goto(x: u16, y: u16) -> (r: String)
    ensures
        r@ == goto_sequence(x, y),
{
    String::from(termion::cursor::Goto(x, y))
}

/// `String::from` on termion's `cursor::Left`: the escape character and an
/// opening bracket, the count in decimal, and the letter D.
#[verifier::external_body]
pub(crate) fn cursor_left(n: u16) -> (r: String)
    ensures
        r@ == left_sequence(n),
{
    String::from(termion::cursor::Left(n))
}

/// `String::from` on termion's `cursor::Right`: the escape character and an
/// opening bracket, the count in decimal, and the letter C.
#[verifier::external_body]
pub(crate) fn cursor_right(n: u16) -> (r: String)
    ensures
        r@ == right_sequence(n),
{
    String::from(termion::cursor::Right(n))
}

/// termion's `clear::CurrentLine` as a string slice: the constant that
/// blanks the cursor's row.
#[verifier::external_body]
pub(crate) fn clear_current_line() -> (r: &'static str)
    ensures
        r@ == clear_line_sequence(),
{
    termion::clear::CurrentLine.as_ref()
}

/// termion's `clear::AfterCursor` as a string slice: the constant that
/// blanks what follows the cursor.
#[verifier::external_body]
pub(crate) fn clear_after_cursor() -> (r: &'static str)
    ensures
        r@ == clear_after_cursor_sequence(),
{
    termion::clear::AfterCursor.as_ref()
}

/// termion's `clear::All` as a string slice: the constant that blanks the
/// screen.
#[verifier::external_body]
pub(crate) fn clear_all() -> (r: &'static str)
    ensures
        r@ == clear_all_sequence(),
{
    termion::clear::All.as_ref()
}

/// termion's `color::White.fg_str()`: the constant that selects colour 7
/// as the foreground.
#[verifier::external_body]
pub(crate) fn white_foreground() -> (r: &'static str)
    ensures
        r@ == "\x1b[38;5;7m"@,
{
    termion::color::White.fg_str()
}

/// termion's `color::LightBlue.bg_str()`: the constant that selects colour
/// 12 as the background.
#[verifier::external_body]
pub(crate) fn light_blue_background() -> (r: &'static str)
    ensures
        r@ == "\x1b[48;5;12m"@,
{
    termion::color::LightBlue.bg_str()
}

/// termion's `color::Black.fg_str()`: the constant that selects colour 0 as
/// the foreground.
#[verifier::external_body]
pub(crate) fn black_foreground() -> (r: &'static str)
    ensures
        r@ == "\x1b[38;5;0m"@,
{
    termion::color::Black.fg_str()
}

/// termion's `color::Cyan.bg_str()`: the constant that selects colour 6 as
/// the background.
#[verifier::external_body]
pub(crate) fn cyan_background() -> (r: &'static str)
    ensures
        r@ == "\x1b[48;5;6m"@,
{
    termion::color::Cyan.bg_str()
}

/// termion's `color::Reset.fg_str()`: the constant that restores the
/// foreground.
#[verifier::external_body]
pub(crate) fn reset_foreground() -> (r: &'static str)
    ensures
        r@ == "\x1b[39m"@,
{
    termion::color::Reset.fg_str()
}

/// termion's `color::Reset.bg_str()`: the constant that restores the
/// background.
#[verifier::external_body]
pub(crate) fn reset_background() -> (r: &'static str)
    ensures
        r@ == "\x1b[49m"@,
{
    termion::color::Reset.bg_str()
}

/// Appends to `out` the sequence that moves the cursor to column `x` of row
/// `y`.
pub fn put_goto(out: &mut String, x: u16, y: u16)
    ensures
        final(out)@ == old(out)@ + goto_sequence(x, y),
{
    let s = goto(x, y);
    out.append(s.as_str());
}

/// Appends to `out` the colours of a trigger that is not chosen.
pub fn put_trigger_colors(out: &mut String)
    ensures
        final(out)@ == old(out)@ + trigger_colors(),
{
    out.append(white_foreground());
    out.append(light_blue_background());
    assert(out@ =~= old(out)@ + trigger_colors());
}

/// Appends to `out` the colours of a description that is not chosen.
pub fn put_description_colors(out: &mut String)
    ensures
        final(out)@ == old(out)@ + description_colors(),
{
    out.append(black_foreground());
    out.append(cyan_background());
    assert(out@ =~= old(out)@ + description_colors());
}

/// Appends to `out` the sequence that restores the terminal's colours.
pub fn put_reset_colors(out: &mut String)
    ensures
        final(out)@ == old(out)@ + reset_colors(),
{
    out.append(reset_foreground());
    out.append(reset_background());
    assert(out@ =~= old(out)@ + reset_colors());
}

} // verus!
