//! Decoded RGBA8 images and the checks made before one is stored.

use vstd::prelude::*;
use crate::text::{decimal, push_decimal, push_str};

verus! {

/// An image decoded to 8-bit RGBA, row by row, four bytes per pixel.
#[derive(Debug, Clone, PartialEq, Eq)]
pub struct DecodedImage {
    pub width: u32,
    pub height: u32,
    pub data: Vec<u8>,
}

impl DecodedImage {
    /// A copy of the image with the same size and bytes.
    pub fn duplicate(&self) -> (r: DecodedImage)
        ensures
            r.width == self.width,
            r.height == self.height,
            r.data@ == self.data@,
    {
        let mut data: Vec<u8> = Vec::new();
        let mut i: usize = 0;
        while i < self.data.len()
            invariant
                i <= self.data.len(),
                data@ =~= self.data@.subrange(0, i as int),
            decreases self.data.len() - i,
        {
            data.push(self.data[i]);
            i = i + 1;
        }
        assert(data@ =~= self.data@);
        DecodedImage { width: self.width, height: self.height, data }
    }
}

/// The number of bytes an RGBA8 image of the given size holds.
pub open spec fn rgba8_len(width: u32, height: u32) -> int {
    width as int * height as int * 4
}

/// The message given when image bytes do not match the image size.
pub open spec fn rgba8_len_mismatch_message(expected: nat, got: nat) -> Seq<char> {
    "Invalid image data length: expected "@ + decimal(expected) + ", got "@ + decimal(got)
}

/// Checks that `data_len` bytes are exactly an RGBA8 image of
/// `width` × `height` pixels, as storing an image requires.
pub fn check_rgba8_len(width: u32, height: u32, data_len: usize) -> (r: Result<(), String>)
    requires
        rgba8_len(width, height) <= usize::MAX,
    ensures
        r is Ok <==> data_len == rgba8_len(width, height),
        r matches Err(msg) ==> msg@ == rgba8_len_mismatch_message(
            rgba8_len(width, height) as nat,
            data_len as nat,
        ),
{
    let expected_len = (width as usize) * (height as usize) * 4;
    if data_len != expected_len {
        let mut msg = String::new();
        push_str(&mut msg, "Invalid image data length: expected ");
        push_decimal(&mut msg, expected_len as u64);
        push_str(&mut msg, ", got ");
        push_decimal(&mut msg, data_len as u64);
        return Err(msg);
    }
    Ok(())
}

/// What the `image` crate decodes from the given bytes: the width, height
/// and RGBA8 bytes of the image, or the text of its error.
pub uninterp spec fn decoded_rgba8(bytes: Seq<u8>) -> Result<(u32, u32, Seq<u8>), Seq<char>>;

/// Decodes an encoded image (the format guessed from its bytes) with
/// `image::load_from_memory` and converts it to RGBA8 with `into_rgba8`.
/// The contract names the result as a function of the bytes and states that
/// the pixel bytes are exactly four per pixel (the decoded buffer is
/// allocated at that size); what the decoders produce is not stated here.
#[verifier::external_body]
fn decode_rgba8(bytes: &[u8]) -> (r: Result<(u32, u32, Vec<u8>), String>)
    ensures
        match (r, decoded_rgba8(bytes@)) {
            (Ok((w, h, data)), Ok((sw, sh, sdata))) => w == sw && h == sh && data@ == sdata,
            (Err(msg), Err(smsg)) => msg@ == smsg,
            _ => false,
        },
        r matches Ok((w, h, data)) ==> data@.len() == rgba8_len(w, h),
{
    match ::image::load_from_memory(bytes) {
        Ok(img) => {
            let img = img.into_rgba8();
            let (width, height) = img.dimensions();
            Ok((width, height, img.into_raw()))
        },
        Err(e) => Err(e.to_string()),
    }
}

/// Decodes an encoded image held in memory into RGBA8.
pub fn load_image_rgba8_from_bytes(bytes: &[u8]) -> (r: Result<DecodedImage, String>)
    ensures
        match (r, decoded_rgba8(bytes@)) {
            (Ok(img), Ok((w, h, data))) => img.width == w && img.height == h && img.data@ == data,
            (Err(msg), Err(smsg)) => msg@ == smsg,
            _ => false,
        },
        r matches Ok(img) ==> img.data@.len() == rgba8_len(img.width, img.height),
{
    match decode_rgba8(bytes) {
        Ok((width, height, data)) => Ok(DecodedImage { width, height, data }),
        Err(msg) => Err(msg),
    }
}

/// What the `image` crate decodes from a file's bytes when the file's
/// extension names the format: the width, height and RGBA8 bytes, or the
/// text of its error.
pub uninterp spec fn decoded_rgba8_as(bytes: Seq<u8>, extension: Seq<char>) -> Result<(u32, u32, Seq<u8>), Seq<char>>;

/// Decodes `bytes` in the format `image::ImageFormat::from_extension` names
/// for `extension` (with `ImageReader::with_format` and `decode`), then
/// converts to RGBA8 with `into_rgba8`. Where the extension names no format
/// the reader decodes with no format, which fails as unsupported; that
/// error's text names no extension. The contract names the result as a
/// function of the bytes and the extension and states that the pixel bytes
/// are exactly four per pixel.
#[verifier::external_body]
fn decode_rgba8_as(bytes: &[u8], extension: &str) -> (r: Result<(u32, u32, Vec<u8>), String>)
    ensures
        match (r, decoded_rgba8_as(bytes@, extension@)) {
            (Ok((w, h, d)), Ok((sw, sh, sd))) => w == sw && h == sh && d@ == sd,
            (Err(m), Err(sm)) => m@ == sm,
            _ => false,
        },
        r matches Ok((w, h, d)) ==> d@.len() == rgba8_len(w, h),
{
    let cursor = std::io::Cursor::new(bytes);
    let reader = match ::image::ImageFormat::from_extension(extension) {
        Some(format) => ::image::ImageReader::with_format(cursor, format),
        None => ::image::ImageReader::new(cursor),
    };
    match reader.decode() {
        Ok(img) => {
            let img = img.into_rgba8();
            let (width, height) = img.dimensions();
            Ok((width, height, img.into_raw()))
        },
        Err(e) => Err(e.to_string()),
    }
}

/// Decodes the bytes of an image file whose extension names its format.
pub fn load_image_rgba8_from_file_bytes(bytes: &[u8], extension: &str) -> (r: Result<DecodedImage, String>)
    ensures
        match (r, decoded_rgba8_as(bytes@, extension@)) {
            (Ok(img), Ok((w, h, d))) => img.width == w && img.height == h && img.data@ == d,
            (Err(m), Err(sm)) => m@ == sm,
            _ => false,
        },
        r matches Ok(img) ==> img.data@.len() == rgba8_len(img.width, img.height),
{
    match decode_rgba8_as(bytes, extension) {
        Ok((width, height, data)) => Ok(DecodedImage { width, height, data }),
        Err(msg) => Err(msg),
    }
}

} // verus!
