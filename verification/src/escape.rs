//! The terminal control sequences the engine and the games write, as termion
//! spells them.
use vstd::prelude::*;
use crate::text::decimal;

verus! {

/// Moves the cursor to column `x`, row `y`, both counted from one.
pub open spec fn goto_text(x: u16, y: u16) -> Seq<char> {
    "\x1B["@ + decimal(y as nat) + ";"@ + decimal(x as nat) + "H"@
}

/// Moves the cursor `n` columns to the left.
pub open spec fn left_text(n: u16) -> Seq<char> {
    "\x1B["@ + decimal(n as nat) + "D"@
}

/// Clears the whole screen.
pub open spec fn clear_text() -> Seq<char> {
    "\x1B[2J"@
}

/// Switches to bold text.
pub open spec fn bold_text() -> Seq<char> {
    "\x1B[1m"@
}

/// Resets every text attribute.
pub open spec fn plain_text() -> Seq<char> {
    "\x1B[m"@
}

/// Resets the foreground colour.
pub open spec fn fg_reset_text() -> Seq<char> {
    "\x1B[39m"@
}

/// Resets the background colour.
pub open spec fn bg_reset_text() -> Seq<char> {
    "\x1B[49m"@
}

/// Sets the foreground to the palette colour `index` of the first eight.
pub open spec fn fg_text(index: u8) -> Seq<char> {
    "\x1B[38;5;"@ + decimal(index as nat) + "m"@
}

/// `termion::cursor::Goto(x, y)` as its `Display` impl writes it: the
/// bytes `ESC [`, the row in decimal, `;`, the column in decimal, `H`.
/// The impl asserts that the position is not `(0, 0)`, which the
/// precondition leaves out.
#[verifier::external_body]
pub(crate) fn goto(x: u16, y: u16) -> (s: String)
    requires
        x != 0 || y != 0,
    ensures
        s@ == goto_text(x, y),
{
    format!("{}", termion::cursor::Goto(x, y))
}

/// `termion::cursor::Left(n)` as its `Display` impl writes it: `ESC [`,
/// the count in decimal, `D`.
#[verifier::external_body]
pub(crate) fn left(n: u16) -> (s: String)
    ensures
        s@ == left_text(n),
{
    format!("{}", termion::cursor::Left(n))
}

/// `termion::clear::All` as its `Display` impl writes it: `ESC [ 2 J`.
#[verifier::external_body]
pub(crate) fn clear_all() -> (s: String)
    ensures
        s@ == clear_text(),
{
    format!("{}", termion::clear::All)
}

/// `termion::style::Bold` as its `Display` impl writes it: `ESC [ 1 m`.
#[verifier::external_body]
pub(crate) fn bold() -> (s: String)
    ensures
        s@ == bold_text(),
{
    format!("{}", termion::style::Bold)
}

/// `termion::style::Reset` as its `Display` impl writes it: `ESC [ m`.
#[verifier::external_body]
pub(crate) fn plain() -> (s: String)
    ensures
        s@ == plain_text(),
{
    format!("{}", termion::style::Reset)
}

/// `termion::color::Fg(termion::color::Reset)` as its `Display` impl
/// writes it: `ESC [ 3 9 m`.
#[verifier::external_body]
pub(crate) fn fg_reset() -> (s: String)
    ensures
        s@ == fg_reset_text(),
{
    format!("{}", termion::color::Fg(termion::color::Reset))
}

/// `termion::color::Bg(termion::color::Reset)` as its `Display` impl
/// writes it: `ESC [ 4 9 m`.
#[verifier::external_body]
pub(crate) fn bg_reset() -> (s: String)
    ensures
        s@ == bg_reset_text(),
{
    format!("{}", termion::color::Bg(termion::color::Reset))
}

/// `termion::color::Fg(termion::color::Red)` as its `Display` impl writes
/// it: `ESC [ 3 8 ; 5 ; 1 m`.
#[verifier::external_body]
pub(crate) fn fg_red() -> (s: String)
    ensures
        s@ == fg_text(1),
{
    format!("{}", termion::color::Fg(termion::color::Red))
}

/// `termion::color::Fg(termion::color::Green)` as its `Display` impl
/// writes it: `ESC [ 3 8 ; 5 ; 2 m`.
#[verifier::external_body]
pub(crate) fn fg_green() -> (s: String)
    ensures
        s@ == fg_text(2),
{
    format!("{}", termion::color::Fg(termion::color::Green))
}

/// `termion::color::Fg(termion::color::White)` as its `Display` impl
/// writes it: `ESC [ 3 8 ; 5 ; 7 m`.
#[verifier::external_body]
pub(crate) fn fg_white() -> (s: String)
    ensures
        s@ == fg_text(7),
{
    format!("{}", termion::color::Fg(termion::color::White))
}

} // verus!
