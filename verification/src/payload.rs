//! Image payloads and the content types that select them.
//!
//! A payload is the classified body of a fetched external image
//! reference. Its tag is chosen by the declared content type alone,
//! never by sniffing the bytes.

use vstd::prelude::*;
use crate::bytes::chars_to_bytes;

verus! {

/// A classified image body: raster bytes of a known format, or markup
/// of a nested vector scene.
#[derive(Debug, PartialEq, Eq)]
pub enum ImagePayload {
    Png(Vec<u8>),
    Jpeg(Vec<u8>),
    Gif(Vec<u8>),
    Svg(Vec<u8>),
}

/// The mathematical model of a payload.
pub enum PayloadModel {
    Png(Seq<u8>),
    Jpeg(Seq<u8>),
    Gif(Seq<u8>),
    Svg(Seq<u8>),
}

/// The model of one executable payload.
pub open spec fn payload_model(p: ImagePayload) -> PayloadModel {
    match p {
        ImagePayload::Png(b) => PayloadModel::Png(b@),
        ImagePayload::Jpeg(b) => PayloadModel::Jpeg(b@),
        ImagePayload::Gif(b) => PayloadModel::Gif(b@),
        ImagePayload::Svg(b) => PayloadModel::Svg(b@),
    }
}

/// The model of an optional payload; `None` stands for a reference that
/// could not be resolved.
pub open spec fn opt_payload_model(p: Option<ImagePayload>) -> Option<PayloadModel> {
    match p {
        None => None,
        Some(q) => Some(payload_model(q)),
    }
}

/// The declared content type of PNG bodies.
pub open spec fn mime_png() -> Seq<u8> {
    chars_to_bytes("image/png"@)
}

/// The declared content type of JPEG bodies.
pub open spec fn mime_jpg() -> Seq<u8> {
    chars_to_bytes("image/jpg"@)
}

/// The declared content type of GIF bodies.
pub open spec fn mime_gif() -> Seq<u8> {
    chars_to_bytes("image/gif"@)
}

/// The declared content type of nested vector scenes.
pub open spec fn mime_svg() -> Seq<u8> {
    chars_to_bytes("image/svg+xml"@)
}

/// The PNG content type as bytes.
pub fn mime_png_bytes() -> (v: Vec<u8>)
    ensures
        v@ == mime_png(),
{
    proof {
        reveal_strlit("image/png");
    }
    crate::bytes::str_bytes("image/png")
}

/// The JPEG content type as bytes.
pub fn mime_jpg_bytes() -> (v: Vec<u8>)
    ensures
        v@ == mime_jpg(),
{
    proof {
        reveal_strlit("image/jpg");
    }
    crate::bytes::str_bytes("image/jpg")
}

/// The GIF content type as bytes.
pub fn mime_gif_bytes() -> (v: Vec<u8>)
    ensures
        v@ == mime_gif(),
{
    proof {
        reveal_strlit("image/gif");
    }
    crate::bytes::str_bytes("image/gif")
}

/// The nested-scene content type as bytes.
pub fn mime_svg_bytes() -> (v: Vec<u8>)
    ensures
        v@ == mime_svg(),
{
    proof {
        reveal_strlit("image/svg+xml");
    }
    crate::bytes::str_bytes("image/svg+xml")
}

} // verus!
