//! The terminal control sequences that frames are decorated with. The
//! sequences themselves come from the `anes` crate; the contracts below record
//! the exact text each one formats to.

use vstd::prelude::*;

verus! {

/// The foreground colours a frame uses.
#[derive(Debug, Clone, Copy, PartialEq, Eq, Structural)]
pub enum Tint {
    Default,
    Red,
    Green,
    Yellow,
    Cyan,
    White,
}

/// The sequence that switches the foreground to `tint`.
pub open spec fn foreground_code(tint: Tint) -> Seq<char> {
    match tint {
        Tint::Default => "\x1B[39m"@,
        Tint::Red => "\x1B[38;5;9m"@,
        Tint::Green => "\x1B[38;5;10m"@,
        Tint::Yellow => "\x1B[38;5;11m"@,
        Tint::Cyan => "\x1B[38;5;14m"@,
        Tint::White => "\x1B[38;5;15m"@,
    }
}

/// The sequence that switches to bold text.
pub open spec fn bold_code() -> Seq<char> {
    "\x1B[1m"@
}

/// The sequence that drops every attribute and colour set before.
pub open spec fn reset_code() -> Seq<char> {
    "\x1B[0m"@
}

/// The sequence that clears the whole screen buffer.
pub open spec fn clear_code() -> Seq<char> {
    "\x1B[2J"@
}

/// Formats `anes::SetForegroundColor` for the colour that `tint` stands for.
/// Trusted: the default colour formats to the SGR parameter `39`, and each
/// bright colour used here to `38;5;` followed by its palette number, as the
/// crate's `Display` impls for `SetForegroundColor` and `Color` write them.
#[verifier::external_body]
pub(crate) fn set_foreground(tint: Tint) -> (code: String)
    ensures
        code@ == foreground_code(tint),
{
    let color = match tint {
        Tint::Default => anes::Color::Default,
        Tint::Red => anes::Color::Red,
        Tint::Green => anes::Color::Green,
        Tint::Yellow => anes::Color::Yellow,
        Tint::Cyan => anes::Color::Cyan,
        Tint::White => anes::Color::White,
    };
    format!("{}", anes::SetForegroundColor(color))
}

/// Formats `anes::SetAttribute(Attribute::Bold)`. Trusted: the result is the
/// SGR sequence with parameter `1`, the number the crate gives to `Bold`.
#[verifier::external_body]
pub(crate) fn set_bold() -> (code: String)
    ensures
        code@ == bold_code(),
{
    format!("{}", anes::SetAttribute(anes::Attribute::Bold))
}

/// Formats `anes::ResetAttributes`. Trusted: the result is the SGR sequence
/// with parameter `0`.
#[verifier::external_body]
pub(crate) fn reset_attributes() -> (code: String)
    ensures
        code@ == reset_code(),
{
    format!("{}", anes::ResetAttributes)
}

/// Formats `anes::ClearBuffer::All`. Trusted: the result is the control
/// sequence `2J`.
#[verifier::external_body]
pub(crate) fn clear_buffer() -> (code: String)
    ensures
        code@ == clear_code(),
{
    format!("{}", anes::ClearBuffer::All)
}

} // verus!
