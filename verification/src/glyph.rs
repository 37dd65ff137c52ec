//! Display width of one UTF-8 sequence, by the Unicode width rules.

use vstd::prelude::*;
use vstd::string::StringSliceAdditionalSpecFns;
use vstd::utf8::{decode_utf8, encode_utf8_decode_utf8, valid_utf8};

verus! {

/// `core::str::Utf8Error`: why bytes are no UTF-8. It is carried through
/// and never looked into.
#[verifier::external_type_specification]
#[verifier::external_body]
pub struct ExUtf8Error(core::str::Utf8Error);

/// `core::str::from_utf8`: succeeds exactly on well-formed UTF-8, and the
/// text it returns is made of the very bytes it was given.
pub assume_specification[ core::str::from_utf8 ](v: &[u8]) -> (r: Result<
    &str,
    core::str::Utf8Error,
>)
    ensures
        r is Ok <==> valid_utf8(v@),
        r matches Ok(s) ==> s.spec_bytes() == v@,
;

/// Columns that `unicode_width` assigns to a character on its own; `None`
/// for a control character.
pub uninterp spec fn char_width(c: char) -> Option<usize>;

/// `unicode_width::UnicodeWidthChar::width`: the result depends on the
/// character alone, is never more than three columns, and is one column for
/// printable ASCII.
#[verifier::external_body]
fn display_width(c: char) -> (w: Option<usize>)
    ensures
        w == char_width(c),
        w matches Some(n) ==> n <= 3,
        ' ' <= c <= '~' ==> w == Some(1usize),
{
    unicode_width::UnicodeWidthChar::width(c)
}

/// The character that a byte sequence stands for when it is measured: its
/// first character where the bytes are well-formed UTF-8, a blank otherwise.
pub open spec fn glyph(bytes: Seq<u8>) -> char {
    if valid_utf8(bytes) && decode_utf8(bytes).len() > 0 {
        decode_utf8(bytes)[0]
    } else {
        ' '
    }
}

/// Columns taken by a byte sequence: the width of its glyph, one column where
/// the width rules give none.
pub open spec fn glyph_width(bytes: Seq<u8>) -> nat {
    match char_width(glyph(bytes)) {
        Some(n) => n as nat,
        None => 1,
    }
}

/// Columns taken by the byte sequence `bytes`; at most three.
pub fn measure_glyph(bytes: &[u8]) -> (w: usize)
    ensures
        w == glyph_width(bytes@),
        w <= 3,
{
    let ch = match core::str::from_utf8(bytes) {
        Ok(s) => {
            proof {
                encode_utf8_decode_utf8(s@);
            }
            let mut chars = s.chars();
            match chars.next() {
                Some(c) => c,
                None => ' ',
            }
        },
        Err(_) => ' ',
    };
    assert(ch == glyph(bytes@));
    match display_width(ch) {
        Some(n) => n,
        None => 1,
    }
}

} // verus!
