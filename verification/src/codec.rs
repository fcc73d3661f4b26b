//! Byte codecs around the clipboard pipeline: base64 text transport and PNG
//! re-encoding of raw clipboard pixels.

use std::io::Cursor;

use vstd::prelude::*;

verus! {

/// What standard-alphabet base64 encoding returns for a byte sequence.
pub uninterp spec fn b64_of(b: Seq<u8>) -> Seq<char>;

/// What standard-alphabet base64 decoding returns: the bytes, or nothing
/// when the text is not valid base64.
pub uninterp spec fn b64_decoded(s: Seq<char>) -> Option<Seq<u8>>;

/// What PNG-encoding an RGBA pixel buffer of the given dimensions returns.
pub uninterp spec fn png_of(pixels: Seq<u8>, width: int, height: int) -> Seq<u8>;

/// Relies on base64::Engine::encode with the standard alphabet: the output
/// is a function of the input bytes alone, and an empty input encodes to an
/// empty string. The length bound keeps the output size computable.
#[verifier::external_body]
pub(crate) fn b64_encode(b: &Vec<u8>) -> (r: String)
    requires
        b@.len() <= usize::MAX / 4,
    ensures
        r@ == b64_of(b@),
        b@.len() == 0 ==> r@.len() == 0,
{
    base64::Engine::encode(&base64::engine::general_purpose::STANDARD, b)
}

/// Relies on base64::Engine::decode with the standard alphabet: validity
/// and the decoded bytes are functions of the input characters alone.
#[verifier::external_body]
pub(crate) fn b64_decode(s: &str) -> (r: Option<Vec<u8>>)
    ensures
        r is Some <==> b64_decoded(s@) is Some,
        r matches Some(v) ==> Some(v@) == b64_decoded(s@),
{
    base64::Engine::decode(&base64::engine::general_purpose::STANDARD, s).ok()
}

/// Relies on image::RgbaImage::from_raw and ImageBuffer::write_to with the
/// PNG format: a buffer of the wrong size or a failing encoder yields
/// nothing, and an encoded result is a function of pixels and dimensions.
/// Success is owed for a well-formed buffer: from_raw accepts a container
/// of (at least) four bytes per pixel, and the PNG encoder, writing to an
/// in-memory cursor, fails only on a zero dimension.
#[verifier::external_body]
pub(crate) fn png_from_rgba(rgba: &Vec<u8>, width: u32, height: u32) -> (r: Option<Vec<u8>>)
    ensures
        r matches Some(v) ==> v@ == png_of(rgba@, width as int, height as int),
        rgba@.len() == 4 * (width as int) * (height as int) && width > 0 && height > 0 ==> r
            is Some,
{
    let buf = match image::RgbaImage::from_raw(width, height, rgba.clone()) {
        Some(b) => b,
        None => {
            return None;
        },
    };
    let mut out: Vec<u8> = Vec::new();
    match buf.write_to(&mut Cursor::new(&mut out), image::ImageFormat::Png) {
        Ok(u) => Some(out),
        Err(e) => None,
    }
}

/// Re-encode raw clipboard pixels as a PNG carried in base64 text, the form
/// an image history entry stores. A well-formed buffer whose encoding the
/// base64 length bound admits is always encoded; anything else yields
/// nothing and the monitor skips the tick.
pub fn encode_image_content(rgba: &Vec<u8>, width: u32, height: u32) -> (r: Option<String>)
    ensures
        r matches Some(s) ==> s@ == b64_of(png_of(rgba@, width as int, height as int)),
        (rgba@.len() == 4 * (width as int) * (height as int) && width > 0 && height > 0 && png_of(
            rgba@,
            width as int,
            height as int,
        ).len() <= usize::MAX / 4) ==> r is Some,
{
    match png_from_rgba(rgba, width, height) {
        None => None,
        Some(png) => {
            if png.len() <= usize::MAX / 4 {
                Some(b64_encode(&png))
            } else {
                None
            }
        },
    }
}

/// The part of a saved payload that carries the base64 data: everything
/// after the last comma, so a `data:` URL prefix is stripped and a bare
/// payload is taken whole.
pub open spec fn payload_of(s: Seq<char>) -> Seq<char> {
    match s.index_of_last(',') {
        Some(i) => s.subrange(i + 1, s.len() as int),
        None => s,
    }
}

/// Decode an image payload handed over for saving: strip any `data:` URL
/// prefix, then decode the base64 remainder. Nothing comes back if and only
/// if the remainder is not valid base64.
#[verifier::loop_isolation(false)]
pub fn payload_bytes(data: &str) -> (r: Option<Vec<u8>>)
    ensures
        r is Some <==> b64_decoded(payload_of(data@)) is Some,
        r matches Some(v) ==> Some(v@) == b64_decoded(payload_of(data@)),
{
    let cs = crate::text::chars_of(data);
    let n = cs.len();
    let mut i: usize = n;
    let mut comma: Option<usize> = None;
    while i > 0
        invariant
            i <= n,
            n == data@.len(),
            match comma {
                Some(c) => i <= c < n && data@[c as int] == ',' && (forall|k: int|
                    c < k < n ==> data@[k] != ','),
                None => forall|k: int| i <= k < n ==> data@[k] != ',',
            },
        decreases i,
    {
        i = i - 1;
        if comma.is_none() && cs[i] == ',' {
            comma = Some(i);
        }
    }
    let tail: &str = match comma {
        Some(c) => {
            proof {
                data@.index_of_last_ensures(',');
                assert(data@.index_of_last(',') == Some(c as int));
            }
            data.substring_char(c + 1, n)
        },
        None => {
            proof {
                data@.index_of_last_ensures(',');
                assert(data@.index_of_last(',') is None);
            }
            data
        },
    };
    proof {
        assert(tail@ == payload_of(data@));
    }
    b64_decode(tail)
}

} // verus!
