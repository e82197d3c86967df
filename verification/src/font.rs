//! The glyph table asset consumed by the text renderer: a fixed-cell
//! bitmap font given as an ordered codepoint table and a flat byte
//! sequence, looked up by first exact match with a designated fallback
//! index for absent codepoints.

use vstd::prelude::*;

verus! {

/// Width in pixels of one glyph cell.
pub const GLYPH_WIDTH: usize = 6;

/// Height in pixels (and bytes) of one glyph cell.
pub const GLYPH_HEIGHT: usize = 12;

/// Glyph index substituted when a codepoint is absent from the table
/// (the Unicode replacement-character convention).
pub const FALLBACK_GLYPH_INDEX: usize = 0xFFFD;

/// A fixed-cell bitmap font: `encoding[i]` is the codepoint of glyph `i`,
/// and glyph `i` occupies `bitmap[i * GLYPH_HEIGHT ..][..GLYPH_HEIGHT]`,
/// one byte per row, most-significant bit leftmost.
pub struct Font {
    pub encoding: Vec<u16>,
    pub bitmap: Vec<u8>,
}

impl Font {
    /// The bitmap carries exactly one cell per table entry.
    pub open spec fn wf(&self) -> bool {
        self.bitmap@.len() == self.encoding@.len() * GLYPH_HEIGHT
    }

    /// Index of the first glyph whose codepoint is `code`, or the
    /// fallback index when no entry matches.
    pub fn glyph_index(&self, code: u16) -> (r: usize)
        ensures
            r as int == spec_glyph_index(self.encoding@, code),
    {
        let n = self.encoding.len();
        let mut i: usize = 0;
        while i < n
            invariant
                n == self.encoding@.len(),
                i <= n,
                forall|j: int| 0 <= j < i ==> self.encoding@[j] != code,
            decreases n - i,
        {
            if self.encoding[i] == code {
                proof {
                    lemma_position_first(self.encoding@, code, i as int);
                }
                return i;
            }
            i += 1;
        }
        proof {
            lemma_position_none(self.encoding@, code);
        }
        FALLBACK_GLYPH_INDEX
    }
}

/// Index of the first match of `code` in `encoding`, if any.
pub open spec fn spec_position(encoding: Seq<u16>, code: u16) -> Option<int>
    decreases encoding.len(),
{
    if encoding.len() == 0 {
        None
    } else if encoding[0] == code {
        Some(0)
    } else {
        match spec_position(encoding.drop_first(), code) {
            None => None,
            Some(i) => Some(i + 1),
        }
    }
}

/// The glyph index the renderer uses: first match, else the fallback.
pub open spec fn spec_glyph_index(encoding: Seq<u16>, code: u16) -> int {
    match spec_position(encoding, code) {
        Some(i) => i,
        None => FALLBACK_GLYPH_INDEX as int,
    }
}

/// A first match at `i` (with no earlier match) is what `spec_position`
/// finds.
pub proof fn lemma_position_first(encoding: Seq<u16>, code: u16, i: int)
    requires
        0 <= i < encoding.len(),
        encoding[i] == code,
        forall|j: int| 0 <= j < i ==> encoding[j] != code,
    ensures
        spec_position(encoding, code) == Some(i),
    decreases i,
{
    if i > 0 {
        assert(forall|j: int|
            0 <= j < i - 1 ==> encoding.drop_first()[j] == encoding[j + 1] && encoding[j + 1]
                != code);
        lemma_position_first(encoding.drop_first(), code, i - 1);
    }
}

/// With no match anywhere, `spec_position` finds nothing.
pub proof fn lemma_position_none(encoding: Seq<u16>, code: u16)
    requires
        forall|j: int| 0 <= j < encoding.len() ==> encoding[j] != code,
    ensures
        spec_position(encoding, code) is None,
    decreases encoding.len(),
{
    if encoding.len() > 0 {
        assert(forall|j: int|
            0 <= j < encoding.len() - 1 ==> encoding.drop_first()[j] == encoding[j + 1]);
        lemma_position_none(encoding.drop_first(), code);
    }
}

/// A found index lies inside the table.
pub proof fn lemma_position_in_bounds(encoding: Seq<u16>, code: u16, i: int)
    requires
        spec_position(encoding, code) == Some(i),
    ensures
        0 <= i < encoding.len(),
        encoding[i] == code,
    decreases encoding.len(),
{
    if encoding.len() > 0 && encoding[0] != code {
        let r = spec_position(encoding.drop_first(), code);
        lemma_position_in_bounds(encoding.drop_first(), code, i - 1);
    }
}

} // verus!
