//! The encoder adapter: from the bytes of a carrier image and a payload to
//! the bytes of a PNG that carries the payload, and back.
//!
//! Reading and writing image files is the work of the `image` crate. What is
//! done to the pixels in between is [`crate::codec`].

use vstd::prelude::*;
use vstd::utf8::{decode_utf8, encode_utf8, valid_utf8};
use crate::codec::{
    CodecError,
    Raster,
    spec_embed_payload,
    spec_extract_payload,
    spec_holds_pixels,
    spec_usable_bits,
};

verus! {

/// The error of the `image` crate, carried through without a look inside.
#[verifier::external_type_specification]
#[verifier::external_body]
pub struct ExImageError(image::ImageError);

/// The error of `String::from_utf8`, carried through without a look inside.
#[verifier::external_type_specification]
#[verifier::external_body]
pub struct ExFromUtf8Error(std::string::FromUtf8Error);

/// The kinds of image file that a carrier may be.
#[derive(Clone, Copy, Debug, PartialEq, Eq, Structural)]
pub enum ImageKind {
    Png,
    Jpeg,
}

/// The eight bytes that every PNG file starts with.
pub open spec fn spec_png_signature() -> Seq<u8> {
    seq![0x89u8, 0x50u8, 0x4Eu8, 0x47u8, 0x0Du8, 0x0Au8, 0x1Au8, 0x0Au8]
}

/// The three bytes that every JPEG file starts with.
pub open spec fn spec_jpeg_signature() -> Seq<u8> {
    seq![0xFFu8, 0xD8u8, 0xFFu8]
}

/// Whether `bytes` begin with `prefix`.
pub open spec fn spec_starts_with(bytes: Seq<u8>, prefix: Seq<u8>) -> bool {
    bytes.len() >= prefix.len() && bytes.subrange(0, prefix.len() as int) == prefix
}

/// The kind of image that the first bytes of a file announce; `None` for
/// bytes that announce neither a PNG nor a JPEG file.
pub open spec fn spec_image_kind(image_bytes: Seq<u8>) -> Option<ImageKind> {
    if spec_starts_with(image_bytes, spec_png_signature()) {
        Some(ImageKind::Png)
    } else if spec_starts_with(image_bytes, spec_jpeg_signature()) {
        Some(ImageKind::Jpeg)
    } else {
        None
    }
}

/// What `image::load_from_memory_with_format` makes of the bytes of an image
/// file of the given kind, taken as rows of RGBA bytes: width, height and
/// pixels; `None` for bytes that it does not decode.
pub uninterp spec fn spec_decoded_image(kind: ImageKind, image_bytes: Seq<u8>) -> Option<(u32, u32, Seq<u8>)>;

/// The PNG file that `image::write_buffer_with_format` writes for rows of
/// RGBA bytes; `None` where it writes none.
pub uninterp spec fn spec_png_file(width: u32, height: u32, pixels: Seq<u8>) -> Option<Seq<u8>>;

/// Asks `image::guess_format` what the first bytes of a file announce. That
/// function goes by a table of signatures in which PNG and JPEG come first:
/// a file that starts with the PNG signature is a PNG file, one that starts
/// with the JPEG signature a JPEG file. Any other answer, of another format
/// or of none, comes back as `None`.
#[verifier::external_body]
fn guess_kind(image_bytes: &[u8]) -> (kind: Option<ImageKind>)
    ensures
        kind == spec_image_kind(image_bytes@),
{
    match image::guess_format(image_bytes) {
        Ok(image::ImageFormat::Png) => Some(ImageKind::Png),
        Ok(image::ImageFormat::Jpeg) => Some(ImageKind::Jpeg),
        _ => None,
    }
}

/// Decodes an image file of the given kind, held in memory, with
/// `image::load_from_memory_with_format` and hands its pixels out as rows of
/// RGBA bytes (`DynamicImage::to_rgba8`). The contract gives the outcome its
/// name and claims nothing else of it: which bytes are an image, and which
/// pixels they hold, is for the `image` crate to say.
#[verifier::external_body]
fn decode_rgba(kind: ImageKind, image_bytes: &[u8]) -> (decoded: Result<Raster, image::ImageError>)
    ensures
        match decoded {
            Ok(raster) => spec_decoded_image(kind, image_bytes@) == Some(
                (raster.width, raster.height, raster.pixels@),
            ),
            Err(_) => spec_decoded_image(kind, image_bytes@) is None,
        },
{
    let format = match kind {
        ImageKind::Png => image::ImageFormat::Png,
        ImageKind::Jpeg => image::ImageFormat::Jpeg,
    };
    let rgba = image::load_from_memory_with_format(image_bytes, format)?.to_rgba8();
    Ok(Raster { width: rgba.width(), height: rgba.height(), pixels: rgba.into_raw() })
}

/// Writes rows of RGBA bytes as a PNG file into memory with
/// `image::write_buffer_with_format`. That function refuses a buffer whose
/// length is not four bytes for each pixel, so such a buffer is kept out.
/// The contract gives the outcome its name and claims nothing else of it.
#[verifier::external_body]
fn encode_png(width: u32, height: u32, pixels: &Vec<u8>) -> (encoded: Result<Vec<u8>, image::ImageError>)
    requires
        pixels@.len() == 4 * (width * height),
    ensures
        match encoded {
            Ok(file) => spec_png_file(width, height, pixels@) == Some(file@),
            Err(_) => spec_png_file(width, height, pixels@) is None,
        },
{
    let mut out: Vec<u8> = Vec::new();
    image::write_buffer_with_format(
        &mut std::io::Cursor::new(&mut out),
        pixels,
        width,
        height,
        image::ExtendedColorType::Rgba8,
        image::ImageFormat::Png,
    )?;
    Ok(out)
}

/// Turns bytes into text with `String::from_utf8`: the text that the bytes
/// encode, and an error for bytes that are not UTF-8.
#[verifier::external_body]
fn utf8_text(bytes: Vec<u8>) -> (text: Result<String, std::string::FromUtf8Error>)
    ensures
        match text {
            Ok(decoded) => valid_utf8(bytes@) && decoded@ == decode_utf8(bytes@),
            Err(_) => !valid_utf8(bytes@),
        },
{
    String::from_utf8(bytes)
}

/// The image that a file holds, with all its pixels: `Format` for bytes
/// that are neither a PNG nor a JPEG image that can be decoded, or whose
/// decoded buffer falls short of its dimensions.
pub open spec fn spec_open_image(image_bytes: Seq<u8>) -> Result<(u32, u32, Seq<u8>), CodecError> {
    match spec_image_kind(image_bytes) {
        Some(kind) => match spec_decoded_image(kind, image_bytes) {
            Some((width, height, pixels)) => if spec_holds_pixels(width, height, pixels.len()) {
                Ok((width, height, pixels))
            } else {
                Err(CodecError::Format)
            },
            None => Err(CodecError::Format),
        },
        None => Err(CodecError::Format),
    }
}

/// The PNG file of an image: of exactly the pixels that its dimensions announce.
pub open spec fn spec_save_image(width: u32, height: u32, pixels: Seq<u8>) -> Result<Seq<u8>, CodecError> {
    match spec_png_file(width, height, pixels.subrange(0, 4 * (width * height))) {
        Some(file) => Ok(file),
        None => Err(CodecError::Format),
    }
}

/// The number of payload bytes that the image in a file can carry.
pub open spec fn spec_carrier_capacity(image_bytes: Seq<u8>) -> Result<int, CodecError> {
    match spec_open_image(image_bytes) {
        Ok((width, height, pixels)) => if spec_usable_bits(width, height) < 32 {
            Err(CodecError::TooSmall)
        } else if spec_usable_bits(width, height) / 8 - 4 > u32::MAX {
            Ok(u32::MAX as int)
        } else {
            Ok(spec_usable_bits(width, height) / 8 - 4)
        },
        Err(e) => Err(e),
    }
}

/// The PNG file that carries `secret` in the image of `carrier_image`.
pub open spec fn spec_embed_bytes(carrier_image: Seq<u8>, secret: Seq<u8>) -> Result<Seq<u8>, CodecError> {
    match spec_open_image(carrier_image) {
        Ok((width, height, pixels)) => match spec_embed_payload(width, height, pixels, secret) {
            Ok(marked) => spec_save_image(width, height, marked),
            Err(e) => Err(e),
        },
        Err(e) => Err(e),
    }
}

/// The payload that the image of `stego_image` carries.
pub open spec fn spec_extract_bytes(stego_image: Seq<u8>) -> Result<Seq<u8>, CodecError> {
    match spec_open_image(stego_image) {
        Ok((width, height, pixels)) => spec_extract_payload(width, height, pixels),
        Err(e) => Err(e),
    }
}

/// The text that the image of `image_bytes` carries.
pub open spec fn spec_extract_text(image_bytes: Seq<u8>) -> Result<Seq<char>, CodecError> {
    match spec_extract_bytes(image_bytes) {
        Ok(payload) => if valid_utf8(payload) {
            Ok(decode_utf8(payload))
        } else {
            Err(CodecError::Format)
        },
        Err(e) => Err(e),
    }
}

/// The model of a result that carries bytes.
pub open spec fn bytes_result_view(result: Result<Vec<u8>, CodecError>) -> Result<Seq<u8>, CodecError> {
    match result {
        Ok(bytes) => Ok(bytes@),
        Err(e) => Err(e),
    }
}

/// The model of a result that carries text.
pub open spec fn text_result_view(result: Result<String, CodecError>) -> Result<Seq<char>, CodecError> {
    match result {
        Ok(text) => Ok(text@),
        Err(e) => Err(e),
    }
}

/// Decodes an image and makes sure that all its pixels are there.
fn open_image(image_bytes: &[u8]) -> (opened: Result<Raster, CodecError>)
    ensures
        match opened {
            Ok(raster) => raster.wf() && spec_open_image(image_bytes@) == Ok::<(u32, u32, Seq<u8>), CodecError>(
                (raster.width, raster.height, raster.pixels@),
            ),
            Err(e) => spec_open_image(image_bytes@) == Err::<(u32, u32, Seq<u8>), CodecError>(e),
        },
{
    let kind = match guess_kind(image_bytes) {
        Some(kind) => kind,
        None => {
            return Err(CodecError::Format);
        },
    };
    match decode_rgba(kind, image_bytes) {
        Ok(raster) => {
            if raster.is_well_formed() {
                Ok(raster)
            } else {
                Err(CodecError::Format)
            }
        },
        Err(_) => Err(CodecError::Format),
    }
}

/// Writes an image as a PNG.
fn save_image(raster: Raster) -> (saved: Result<Vec<u8>, CodecError>)
    requires
        raster.wf(),
    ensures
        bytes_result_view(saved) == spec_save_image(raster.width, raster.height, raster.pixels@),
{
    let Raster { width, height, pixels: mut pixels } = raster;
    let area = Raster { width, height, pixels: Vec::new() }.pixel_count();
    assert(4 * area <= pixels@.len());
    let len = pixels.len();
    pixels.truncate((4 * area) as usize);
    match encode_png(width, height, &pixels) {
        Ok(bytes) => Ok(bytes),
        Err(_) => Err(CodecError::Format),
    }
}

/// The kind of image that the first bytes of a file announce.
pub fn image_kind(image_bytes: &[u8]) -> (kind: Option<ImageKind>)
    ensures
        kind == spec_image_kind(image_bytes@),
{
    guess_kind(image_bytes)
}

/// The number of payload bytes that the image in `image_bytes` can carry.
/// `Format` where the bytes are no image, `TooSmall` where the image cannot
/// carry any payload.
pub fn carrier_capacity(image_bytes: &[u8]) -> (capacity: Result<u64, CodecError>)
    ensures
        match capacity {
            Ok(bytes) => spec_carrier_capacity(image_bytes@) == Ok::<int, CodecError>(bytes as int),
            Err(e) => spec_carrier_capacity(image_bytes@) == Err::<int, CodecError>(e),
        },
{
    let raster = match open_image(image_bytes) {
        Ok(raster) => raster,
        Err(e) => {
            return Err(e);
        },
    };
    let bits = raster.usable_bits();
    if bits < 32 {
        return Err(CodecError::TooSmall);
    }
    let room: u128 = bits / 8 - 4;
    if room > u32::MAX as u128 {
        Ok(u32::MAX as u64)
    } else {
        Ok(room as u64)
    }
}

/// Hides `secret` in the carrier image and returns the result as a PNG.
///
/// The carrier is decoded, the payload is stored in its pixels by
/// [`Raster::embed_payload`], and the pixels are written out again. `Format`
/// where the carrier cannot be read or the result cannot be written,
/// `TooSmall` where the payload does not fit the carrier.
pub fn embed_bytes(carrier_image: &[u8], secret: &[u8]) -> (encoded: Result<Vec<u8>, CodecError>)
    ensures
        bytes_result_view(encoded) == spec_embed_bytes(carrier_image@, secret@),
{
    let mut raster = match open_image(carrier_image) {
        Ok(raster) => raster,
        Err(e) => {
            return Err(e);
        },
    };
    match raster.embed_payload(secret) {
        Ok(()) => {},
        Err(e) => {
            return Err(e);
        },
    }
    assert(raster.wf());
    save_image(raster)
}

/// Recovers the payload that an image carries.
///
/// The image is decoded and its pixels are read by
/// [`Raster::extract_payload`]. `Format` where the image cannot be read,
/// `Length` where it announces more payload than it can hold.
pub fn extract_bytes(stego_image: &[u8]) -> (secret: Result<Vec<u8>, CodecError>)
    ensures
        bytes_result_view(secret) == spec_extract_bytes(stego_image@),
{
    let raster = match open_image(stego_image) {
        Ok(raster) => raster,
        Err(e) => {
            return Err(e);
        },
    };
    raster.extract_payload()
}

/// Hides a text in an image; see [`embed_bytes`].
pub fn embed_text_bytes(image_bytes: &[u8], text: &str) -> (encoded: Result<Vec<u8>, CodecError>)
    ensures
        bytes_result_view(encoded) == spec_embed_bytes(image_bytes@, encode_utf8(text@)),
{
    embed_bytes(image_bytes, text.as_bytes())
}

/// Recovers the text that an image carries; see [`extract_bytes`].
/// `Format` also where what the image carries is no UTF-8 text.
pub fn extract_text_bytes(image_bytes: &[u8]) -> (text: Result<String, CodecError>)
    ensures
        text_result_view(text) == spec_extract_text(image_bytes@),
{
    let payload = match extract_bytes(image_bytes) {
        Ok(payload) => payload,
        Err(e) => {
            return Err(e);
        },
    };
    match utf8_text(payload) {
        Ok(text) => Ok(text),
        Err(_) => Err(CodecError::Format),
    }
}

/// The encoding service of one server: it hides what clients send in the
/// carrier image that the server was started with.
pub struct ServerCore {
    server_id: u32,
    default_carrier_image: Vec<u8>,
}

/// The model of a [`ServerCore`].
pub struct ServerCoreView {
    pub server_id: u32,
    pub default_carrier_image: Seq<u8>,
}

impl View for ServerCore {
    type V = ServerCoreView;

    closed spec fn view(&self) -> ServerCoreView {
        ServerCoreView { server_id: self.server_id, default_carrier_image: self.default_carrier_image@ }
    }
}

impl ServerCore {
    /// A service with the image file in `carrier_image_bytes` as its carrier.
    pub fn from_bytes(server_id: u32, carrier_image_bytes: Vec<u8>) -> (core: Self)
        ensures
            core@ == (ServerCoreView { server_id, default_carrier_image: carrier_image_bytes@ }),
    {
        ServerCore { server_id, default_carrier_image: carrier_image_bytes }
    }

    pub fn server_id(&self) -> (id: u32)
        ensures
            id == self@.server_id,
    {
        self.server_id
    }

    /// The number of payload bytes that the carrier of this service can carry.
    pub fn capacity(&self) -> (capacity: Result<u64, CodecError>)
        ensures
            match capacity {
                Ok(bytes) => spec_carrier_capacity(self@.default_carrier_image) == Ok::<int, CodecError>(
                    bytes as int,
                ),
                Err(e) => spec_carrier_capacity(self@.default_carrier_image) == Err::<int, CodecError>(e),
            },
    {
        carrier_capacity(self.default_carrier_image.as_slice())
    }

    /// Hides the payload of a task in the carrier of this service. This is
    /// CPU-bound work: a driver runs it on a worker of its own.
    pub fn encrypt_image(&self, _request_id: u64, _client_name: String, secret_image_data: Vec<u8>) -> (encoded:
        Result<Vec<u8>, CodecError>)
        ensures
            bytes_result_view(encoded) == spec_embed_bytes(self@.default_carrier_image, secret_image_data@),
    {
        embed_bytes(self.default_carrier_image.as_slice(), secret_image_data.as_slice())
    }

    /// Hides a text in an image that the client sent along.
    pub fn encrypt_image_with_text(
        &self,
        _request_id: u64,
        _client_name: String,
        image_data: Vec<u8>,
        text_to_embed: String,
    ) -> (encoded: Result<Vec<u8>, CodecError>)
        ensures
            bytes_result_view(encoded) == spec_embed_bytes(image_data@, encode_utf8(text_to_embed@)),
    {
        embed_text_bytes(image_data.as_slice(), text_to_embed.as_str())
    }

    /// The outcome of an encoder run as a task response carries it: the
    /// bytes, or the classifier of the error.
    pub fn outcome(encoded: Result<Vec<u8>, CodecError>) -> (outcome: Result<Vec<u8>, String>)
        ensures
            match encoded {
                Ok(bytes) => outcome == Ok::<Vec<u8>, String>(bytes),
                Err(e) => outcome is Err && outcome->Err_0@ == (match e {
                    CodecError::TooSmall => "too_small"@,
                    CodecError::Format => "format"@,
                    CodecError::Length => "length"@,
                }),
            },
    {
        match encoded {
            Ok(bytes) => Ok(bytes),
            Err(e) => Err(e.classifier()),
        }
    }
}

} // verus!
