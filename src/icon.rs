use vstd::prelude::*;

verus! {

// Glyphs of the application's icon font, one per icon.

/// Glyph of the "dot" icon.
pub fn dot() -> (r: char)
    ensures
        r == '\u{F111}',
{
    '\u{F111}'
}

/// Glyph of the "error" icon.
pub fn error() -> (r: char)
    ensures
        r == '\u{E80D}',
{
    '\u{E80D}'
}

/// Glyph of the "connected" icon.
pub fn connected() -> (r: char)
    ensures
        r == '\u{E800}',
{
    '\u{E800}'
}

/// Glyph of the "cancel" icon.
pub fn cancel() -> (r: char)
    ensures
        r == '\u{E80F}',
{
    '\u{E80F}'
}

/// Glyph of the "maximize" icon.
pub fn maximize() -> (r: char)
    ensures
        r == '\u{E801}',
{
    '\u{E801}'
}

/// Glyph of the "restore" icon.
pub fn restore() -> (r: char)
    ensures
        r == '\u{E805}',
{
    '\u{E805}'
}

/// Glyph of the "people" icon.
pub fn people() -> (r: char)
    ensures
        r == '\u{E804}',
{
    '\u{E804}'
}

/// Glyph of the "topic" icon.
pub fn topic() -> (r: char)
    ensures
        r == '\u{E803}',
{
    '\u{E803}'
}

/// Glyph of the "search" icon.
pub fn search() -> (r: char)
    ensures
        r == '\u{E808}',
{
    '\u{E808}'
}

/// Glyph of the "checkmark" icon.
pub fn checkmark() -> (r: char)
    ensures
        r == '\u{E806}',
{
    '\u{E806}'
}

/// Glyph of the "file transfer" icon.
pub fn file_transfer() -> (r: char)
    ensures
        r == '\u{E802}',
{
    '\u{E802}'
}

} // verus!
