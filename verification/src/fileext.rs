//! Classification of font file names: the extensions the corpus accepts.

use vstd::prelude::*;

verus! {

/// ASCII lowercasing of one byte.
pub open spec fn ascii_lower(b: u8) -> u8 {
    if 65 <= b && b <= 90 {
        (b + 32) as u8
    } else {
        b
    }
}

/// Whether an extension, lowercased, reads `ttf`, `otf`, `ttc` or `otc`.
pub open spec fn is_font_ext_spec(s: Seq<u8>) -> bool {
    ||| s.len() == 3 && ascii_lower(s[0]) == 116 && ascii_lower(s[1]) == 116 && ascii_lower(s[2])
        == 102
    ||| s.len() == 3 && ascii_lower(s[0]) == 111 && ascii_lower(s[1]) == 116 && ascii_lower(s[2])
        == 102
    ||| s.len() == 3 && ascii_lower(s[0]) == 116 && ascii_lower(s[1]) == 116 && ascii_lower(s[2])
        == 99
    ||| s.len() == 3 && ascii_lower(s[0]) == 111 && ascii_lower(s[1]) == 116 && ascii_lower(s[2])
        == 99
}

/// ASCII lowercasing of one byte.
fn lower_byte(b: u8) -> (r: u8)
    ensures
        r == ascii_lower(b),
{
    if 65 <= b && b <= 90 {
        b + 32
    } else {
        b
    }
}

/// Whether a file extension, case-insensitively, is one of the font
/// extensions the corpus accepts.
pub fn is_font_extension(ext: &[u8]) -> (r: bool)
    ensures
        r == is_font_ext_spec(ext@),
{
    if ext.len() != 3 {
        return false;
    }
    let a = lower_byte(ext[0]);
    let b = lower_byte(ext[1]);
    let c = lower_byte(ext[2]);
    (b == 116) && (a == 116 || a == 111) && (c == 102 || c == 99)
}

} // verus!
