//! Rendering entry points that do not touch pixels: the pipeline handle and
//! the built-in fallback glyphs for symbols the text font lacks.
use vstd::prelude::*;

verus! {

/// Entry point of the rendering pipeline.
pub struct RenderPipeline;

impl RenderPipeline {
    /// The pipeline handle; it holds no state.
    pub fn new() -> (p: RenderPipeline)
        ensures
            p == RenderPipeline,
    {
        RenderPipeline
    }
}

/// The 8x12 one-bit bitmap (one byte per row, top to bottom) drawn for
/// symbols the text font lacks; blank for any other character.
pub open spec fn fallback_glyph(c: char) -> Seq<u8> {
    if c == '⚡' {
        seq![0x0C, 0x1C, 0x3C, 0xFE, 0x0E, 0x1C, 0x18, 0x00, 0x00, 0x00, 0x00, 0x00]
    } else if c == '✨' || c == '⭐' {
        seq![0x18, 0x3C, 0xFF, 0x3C, 0x18, 0x00, 0x00, 0x00, 0x00, 0x00, 0x00, 0x00]
    } else if c == '🎉' {
        seq![0x18, 0x3C, 0x7E, 0xFF, 0x7E, 0x3C, 0x18, 0x00, 0x00, 0x00, 0x00, 0x00]
    } else if c == '👉' || c == '>' {
        seq![0x60, 0x30, 0x18, 0x0C, 0x18, 0x30, 0x60, 0x00, 0x00, 0x00, 0x00, 0x00]
    } else if c == '<' {
        seq![0x06, 0x0C, 0x18, 0x30, 0x18, 0x0C, 0x06, 0x00, 0x00, 0x00, 0x00, 0x00]
    } else if c == '▼' || c == '▾' {
        seq![0x00, 0x00, 0x7E, 0x3C, 0x18, 0x00, 0x00, 0x00, 0x00, 0x00, 0x00, 0x00]
    } else if c == '▶' || c == '▸' {
        seq![0x00, 0x18, 0x38, 0x78, 0x38, 0x18, 0x00, 0x00, 0x00, 0x00, 0x00, 0x00]
    } else if c == '−' || c == '-' {
        seq![0x00, 0x00, 0x00, 0x7E, 0x7E, 0x00, 0x00, 0x00, 0x00, 0x00, 0x00, 0x00]
    } else if c == '+' {
        seq![0x00, 0x18, 0x18, 0x7E, 0x7E, 0x18, 0x18, 0x00, 0x00, 0x00, 0x00, 0x00]
    } else if c == '✓' || c == '✔' {
        seq![0x00, 0x02, 0x06, 0x8C, 0xD8, 0x70, 0x20, 0x00, 0x00, 0x00, 0x00, 0x00]
    } else if c == '•' || c == '·' {
        seq![0x00, 0x00, 0x3C, 0x7E, 0x7E, 0x3C, 0x00, 0x00, 0x00, 0x00, 0x00, 0x00]
    } else {
        seq![0x00, 0x00, 0x00, 0x00, 0x00, 0x00, 0x00, 0x00, 0x00, 0x00, 0x00, 0x00]
    }
}

/// The fallback bitmap of `c`: rows of 8 pixels, most significant bit
/// leftmost.
pub fn get_fallback_glyph_bitmap(c: char) -> (bitmap: [u8; 12])
    ensures
        bitmap@ == fallback_glyph(c),
{
    let bitmap: [u8; 12] = match c {
        '⚡' => [0x0C, 0x1C, 0x3C, 0xFE, 0x0E, 0x1C, 0x18, 0x00, 0x00, 0x00, 0x00, 0x00],
        '✨' | '⭐' => [0x18, 0x3C, 0xFF, 0x3C, 0x18, 0x00, 0x00, 0x00, 0x00, 0x00, 0x00, 0x00],
        '🎉' => [0x18, 0x3C, 0x7E, 0xFF, 0x7E, 0x3C, 0x18, 0x00, 0x00, 0x00, 0x00, 0x00],
        '👉' | '>' => [0x60, 0x30, 0x18, 0x0C, 0x18, 0x30, 0x60, 0x00, 0x00, 0x00, 0x00, 0x00],
        '<' => [0x06, 0x0C, 0x18, 0x30, 0x18, 0x0C, 0x06, 0x00, 0x00, 0x00, 0x00, 0x00],
        '▼' | '▾' => [0x00, 0x00, 0x7E, 0x3C, 0x18, 0x00, 0x00, 0x00, 0x00, 0x00, 0x00, 0x00],
        '▶' | '▸' => [0x00, 0x18, 0x38, 0x78, 0x38, 0x18, 0x00, 0x00, 0x00, 0x00, 0x00, 0x00],
        '−' | '-' => [0x00, 0x00, 0x00, 0x7E, 0x7E, 0x00, 0x00, 0x00, 0x00, 0x00, 0x00, 0x00],
        '+' => [0x00, 0x18, 0x18, 0x7E, 0x7E, 0x18, 0x18, 0x00, 0x00, 0x00, 0x00, 0x00],
        '✓' | '✔' => [0x00, 0x02, 0x06, 0x8C, 0xD8, 0x70, 0x20, 0x00, 0x00, 0x00, 0x00, 0x00],
        '•' | '·' => [0x00, 0x00, 0x3C, 0x7E, 0x7E, 0x3C, 0x00, 0x00, 0x00, 0x00, 0x00, 0x00],
        _ => [0x00, 0x00, 0x00, 0x00, 0x00, 0x00, 0x00, 0x00, 0x00, 0x00, 0x00, 0x00],
    };
    proof {
        assert(bitmap@ =~= fallback_glyph(c));
    }
    bitmap
}

/// A row of 8 pixels flipped left to right.
pub open spec fn mirrored_row(b: u8) -> int {
    (b % 2) * 128 + (b / 2 % 2) * 64 + (b / 4 % 2) * 32 + (b / 8 % 2) * 16 + (b / 16 % 2) * 8 + (b
        / 32 % 2) * 4 + (b / 64 % 2) * 2 + (b / 128 % 2)
}

/// Every fallback glyph is 12 rows whose lower five are blank; `<` is `>`
/// flipped left to right; the plus, star, sparkle, party and bullet glyphs
/// are symmetric left to right; the plus holds the minus bar; a glyph for a
/// character the table does not know is blank.
pub proof fn law_fallback_glyph_shapes(c: char)
    ensures
        fallback_glyph(c).len() == 12,
        forall|i: int| 7 <= i < 12 ==> #[trigger] fallback_glyph(c)[i] == 0,
        forall|i: int| 0 <= i < 12 ==> #[trigger] fallback_glyph('<')[i] == mirrored_row(fallback_glyph('>')[i]),
        forall|i: int| 0 <= i < 12 ==> #[trigger] mirrored_row(fallback_glyph('+')[i]) == fallback_glyph('+')[i],
        forall|i: int| 0 <= i < 12 ==> #[trigger] mirrored_row(fallback_glyph('⭐')[i]) == fallback_glyph('⭐')[i],
        forall|i: int| 0 <= i < 12 ==> #[trigger] mirrored_row(fallback_glyph('🎉')[i]) == fallback_glyph('🎉')[i],
        forall|i: int| 0 <= i < 12 ==> #[trigger] mirrored_row(fallback_glyph('•')[i]) == fallback_glyph('•')[i],
        forall|i: int| 0 <= i < 12 ==> #[trigger] mirrored_row(fallback_glyph('▼')[i]) == fallback_glyph('▼')[i],
        fallback_glyph('+')[3] == fallback_glyph('-')[3] && fallback_glyph('+')[4] == fallback_glyph('-')[4],
        forall|i: int| 0 <= i < 12 ==> #[trigger] fallback_glyph('a')[i] == 0,
{
    assert forall|i: int| 7 <= i < 12 implies #[trigger] fallback_glyph(c)[i] == 0 by {}
    assert forall|i: int| 0 <= i < 12 implies #[trigger] fallback_glyph('<')[i] == mirrored_row(
        fallback_glyph('>')[i],
    ) by {
        if i == 0 {} else if i == 1 {} else if i == 2 {} else if i == 3 {} else if i == 4 {} else if i == 5 {} else if i == 6 {}
    }
    assert forall|i: int| 0 <= i < 12 implies #[trigger] mirrored_row(fallback_glyph('+')[i]) == fallback_glyph('+')[i] by {
        if i == 0 {} else if i == 1 {} else if i == 2 {} else if i == 3 {} else if i == 4 {} else if i == 5 {} else if i == 6 {}
    }
    assert forall|i: int| 0 <= i < 12 implies #[trigger] mirrored_row(fallback_glyph('⭐')[i]) == fallback_glyph('⭐')[i] by {
        if i == 0 {} else if i == 1 {} else if i == 2 {} else if i == 3 {} else if i == 4 {} else if i == 5 {} else if i == 6 {}
    }
    assert forall|i: int| 0 <= i < 12 implies #[trigger] mirrored_row(fallback_glyph('🎉')[i]) == fallback_glyph('🎉')[i] by {
        if i == 0 {} else if i == 1 {} else if i == 2 {} else if i == 3 {} else if i == 4 {} else if i == 5 {} else if i == 6 {}
    }
    assert forall|i: int| 0 <= i < 12 implies #[trigger] mirrored_row(fallback_glyph('•')[i]) == fallback_glyph('•')[i] by {
        if i == 0 {} else if i == 1 {} else if i == 2 {} else if i == 3 {} else if i == 4 {} else if i == 5 {} else if i == 6 {}
    }
    assert forall|i: int| 0 <= i < 12 implies #[trigger] mirrored_row(fallback_glyph('▼')[i]) == fallback_glyph('▼')[i] by {
        if i == 0 {} else if i == 1 {} else if i == 2 {} else if i == 3 {} else if i == 4 {} else if i == 5 {} else if i == 6 {}
    }
}

} // verus!
