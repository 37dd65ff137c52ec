//! Text and compression codecs used on the side channels: base64, gzip, zstd.

use vstd::prelude::*;

verus! {

/// The base64 alphabet: the character that stands for a six-bit value.
pub open spec fn base64_digit(v: int) -> char {
    "ABCDEFGHIJKLMNOPQRSTUVWXYZabcdefghijklmnopqrstuvwxyz0123456789+/"@[v]
}

/// Standard base64 of `data`, padded with `=` to a multiple of four
/// characters.
pub open spec fn base64_text(data: Seq<u8>) -> Seq<char>
    decreases data.len(),
{
    if data.len() == 0 {
        Seq::empty()
    } else if data.len() == 1 {
        seq![base64_digit((data[0] / 4) as int), base64_digit(data[0] % 4 * 16), '=', '=']
    } else if data.len() == 2 {
        seq![
            base64_digit((data[0] / 4) as int),
            base64_digit(data[0] % 4 * 16 + data[1] / 16),
            base64_digit(data[1] % 16 * 4),
            '=',
        ]
    } else {
        seq![
            base64_digit((data[0] / 4) as int),
            base64_digit(data[0] % 4 * 16 + data[1] / 16),
            base64_digit(data[1] % 16 * 4 + data[2] / 64),
            base64_digit((data[2] % 64) as int),
        ] + base64_text(data.subrange(3, data.len() as int))
    }
}

/// True where the base64 text of `len` bytes is short enough to be built.
pub open spec fn base64_fits(len: nat) -> bool {
    len / 3 * 4 + 4 <= usize::MAX
}

/// `base64::Engine::encode` on the engine `general_purpose::STANDARD`: the
/// text it returns is the padded standard base64 of `data`. It cannot be
/// called on data whose text would be longer than a `usize` can say.
#[verifier::external_body]
pub(crate) fn base64_encode(data: &[u8]) -> (text: String)
    requires
        base64_fits(data@.len()),
    ensures
        text@ == base64_text(data@),
{
    base64::Engine::encode(&base64::engine::general_purpose::STANDARD, data)
}

/// What a compression gave, as a mathematical value: the compressed bytes,
/// or the text of the error.
pub open spec fn outcome_view(outcome: Result<Vec<u8>, String>) -> Result<Seq<u8>, Seq<char>> {
    match outcome {
        Ok(bytes) => Ok(bytes@),
        Err(reason) => Err(reason@),
    }
}

/// What `flate2` makes of `data` at its default level, with the header it
/// writes by default: the gzip stream, or the text of its error.
pub uninterp spec fn gzip_outcome(data: Seq<u8>) -> Result<Seq<u8>, Seq<char>>;

/// `flate2::write::GzEncoder` at `Compression::default()`, fed `data` and
/// finished: what it gives, the stream or the text of the error, depends on
/// `data` alone.
#[verifier::external_body]
pub(crate) fn gzip(data: &[u8]) -> (r: Result<Vec<u8>, String>)
    ensures
        outcome_view(r) == gzip_outcome(data@),
{
    let mut enc = flate2::write::GzEncoder::new(Vec::new(), flate2::Compression::default());
    if let Err(e) = std::io::Write::write_all(&mut enc, data) {
        return Err(e.to_string());
    }
    match enc.finish() {
        Ok(stream) => Ok(stream),
        Err(e) => Err(e.to_string()),
    }
}

/// What `zstd` makes of `data` at compression level `level`: the zstd frame,
/// or the text of its error.
pub uninterp spec fn zstd_outcome(data: Seq<u8>, level: int) -> Result<Seq<u8>, Seq<char>>;

/// `zstd::stream::encode_all`: what it gives, the frame or the text of the
/// error, depends on `data` and `level` alone.
#[verifier::external_body]
pub(crate) fn zstd_compress(data: &[u8], level: i32) -> (r: Result<Vec<u8>, String>)
    ensures
        outcome_view(r) == zstd_outcome(data@, level as int),
{
    match zstd::stream::encode_all(data, level) {
        Ok(frame) => Ok(frame),
        Err(e) => Err(e.to_string()),
    }
}

} // verus!
