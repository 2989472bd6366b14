//! Rasterization into a fixed-size pixel buffer, and lossless encoding.
//!
//! The pixel buffer wraps an outside pixmap; its dimensions are carried
//! as plain fields, and its raster bytes are named by
//! [`raster_contents`]. Encoding is a pure function of the raster bytes
//! and the dimensions, named by [`webp_lossless`].

use vstd::prelude::*;
use crate::scene::{scene_doc, scene_fonts};

verus! {

#[verifier::external_type_specification]
#[verifier::external_body]
pub struct ExPixmap(tiny_skia::Pixmap);

/// The raster bytes a pixmap holds, four per pixel.
pub uninterp spec fn raster_contents(pix: tiny_skia::Pixmap) -> Seq<u8>;

/// The raster the renderer paints for a document and its fonts onto a
/// transparent buffer of the given dimensions, at the scene's original
/// size under the identity transform.
pub uninterp spec fn rendered_raster(
    doc: Seq<u8>,
    fonts: Seq<Seq<u8>>,
    width: u32,
    height: u32,
) -> Seq<u8>;

/// The losslessly compressed stream for an RGBA buffer of the given
/// dimensions.
pub uninterp spec fn webp_lossless(data: Seq<u8>, width: u32, height: u32) -> Seq<u8>;

/// A fixed-dimension RGBA raster.
pub struct PixelBuffer {
    pix: tiny_skia::Pixmap,
    width: u32,
    height: u32,
}

impl PixelBuffer {
    /// The buffer's width in pixels.
    pub closed spec fn spec_width(&self) -> u32 {
        self.width
    }

    /// The buffer's height in pixels.
    pub closed spec fn spec_height(&self) -> u32 {
        self.height
    }

    /// The buffer's raster bytes.
    pub closed spec fn spec_data(&self) -> Seq<u8> {
        raster_contents(self.pix)
    }

    /// The raster holds four bytes for every pixel.
    pub open spec fn wf(&self) -> bool {
        self.spec_data().len() == 4 * (self.spec_width() as int) * (self.spec_height() as int)
    }

    /// The buffer's width in pixels.
    pub fn width(&self) -> (w: u32)
        ensures
            w == self.spec_width(),
    {
        self.width
    }

    /// The buffer's height in pixels.
    pub fn height(&self) -> (h: u32)
        ensures
            h == self.spec_height(),
    {
        self.height
    }
}

/// Relies on tiny_skia::Pixmap::new: allocates a zero-filled pixmap of
/// the given size. It returns nothing exactly when a dimension is zero,
/// a row does not fit thirty-one bits, or the byte count overflows a
/// machine word; out-of-memory aborts rather than returning.
#[verifier::external_body]
fn pixmap_alloc(width: u32, height: u32) -> (r: Option<PixelBuffer>)
    ensures
        (r is Some) == (1 <= width && 1 <= height && 4 * (width as int) <= 0x7fffffff && 4 * (
        width as int) * (height as int) <= usize::MAX),
        r matches Some(b) ==> b.spec_width() == width && b.spec_height() == height
            && raster_contents(b.pix) == Seq::new(
            (4 * (width as int) * (height as int)) as nat,
            |i: int| 0u8,
        ),
{
    match tiny_skia::Pixmap::new(width, height) {
        Some(pix) => Some(PixelBuffer { pix, width, height }),
        None => None,
    }
}

/// Relies on resvg::render: paints the scene into the pixmap at the
/// scene's original size under the identity transform. The pixmap
/// keeps its dimensions and its byte-per-pixel layout. Painting
/// composites over the buffer's prior contents, so the buffer must
/// start transparent; the result is then a function of the scene's
/// document and fonts and the dimensions alone.
#[verifier::external_body]
fn render_into(tree: &usvg::Tree, buf: &mut PixelBuffer)
    requires
        raster_contents(old(buf).pix) == Seq::new(
            (4 * (old(buf).spec_width() as int) * (old(buf).spec_height() as int)) as nat,
            |i: int| 0u8,
        ),
    ensures
        final(buf).spec_width() == old(buf).spec_width(),
        final(buf).spec_height() == old(buf).spec_height(),
        raster_contents(final(buf).pix).len() == raster_contents(old(buf).pix).len(),
        raster_contents(final(buf).pix) == rendered_raster(
            scene_doc(*tree),
            scene_fonts(*tree),
            old(buf).spec_width(),
            old(buf).spec_height(),
        ),
{
    let _ = resvg::render(
        tree,
        usvg::FitTo::Original,
        tiny_skia::Transform::default(),
        buf.pix.as_mut(),
    );
}

/// Relies on tiny_skia::Pixmap::data: hands out the raster bytes.
#[verifier::external_body]
fn pixel_bytes(buf: &PixelBuffer) -> (r: Vec<u8>)
    ensures
        r@ == raster_contents(buf.pix),
{
    buf.pix.data().to_vec()
}

/// Relies on webp::Encoder::encode_lossless: deterministic, lossless
/// compression of an RGBA buffer. The dimension bounds are the sides
/// libwebp accepts, and the length ties the buffer to the dimensions;
/// within them only memory exhaustion can stop the encoder.
#[verifier::external_body]
fn encode_rgba_lossless(data: &Vec<u8>, width: u32, height: u32) -> (r: Vec<u8>)
    requires
        data@.len() == 4 * (width as int) * (height as int),
        1 <= width <= 16383,
        1 <= height <= 16383,
    ensures
        r@ == webp_lossless(data@, width, height),
{
    let mem = webp::Encoder::new(data, webp::PixelLayout::Rgba, width, height).encode_lossless();
    mem.to_vec()
}

/// Why rasterization failed.
#[derive(Debug, PartialEq, Eq, Structural, Clone, Copy)]
pub enum RenderError {
    /// The pixel buffer could not be allocated.
    Allocation,
}

/// The rasterizer: paints the scene into a freshly allocated,
/// transparent buffer of the card dimensions. It always succeeds — the
/// card dimensions meet the allocator's conditions, and memory
/// exhaustion aborts rather than failing — and the buffer has exactly
/// the card dimensions and holds exactly the renderer's raster for the
/// scene's document and fonts.
pub fn rasterize(tree: &usvg::Tree) -> (r: Result<PixelBuffer, RenderError>)
    ensures
        r is Ok,
        r matches Ok(b) ==> b.spec_width() == crate::WIDTH && b.spec_height() == crate::HEIGHT
            && b.wf() && b.spec_data() == rendered_raster(
            scene_doc(*tree),
            scene_fonts(*tree),
            crate::WIDTH,
            crate::HEIGHT,
        ),
{
    match pixmap_alloc(crate::WIDTH, crate::HEIGHT) {
        None => Err(RenderError::Allocation),
        Some(mut buf) => {
            render_into(tree, &mut buf);
            Ok(buf)
        },
    }
}

/// The final compressed byte stream.
pub struct EncodedImage {
    pub bytes: Vec<u8>,
}

/// The encoder: losslessly compresses the buffer's raster bytes. The
/// result is a function of the raster bytes and the dimensions alone,
/// so encoding the same buffer twice yields byte-identical output.
pub fn encode(buf: &PixelBuffer) -> (img: EncodedImage)
    requires
        buf.wf(),
        1 <= buf.spec_width() <= 16383,
        1 <= buf.spec_height() <= 16383,
    ensures
        img.bytes@ == webp_lossless(buf.spec_data(), buf.spec_width(), buf.spec_height()),
{
    let data = pixel_bytes(buf);
    let bytes = encode_rgba_lossless(&data, buf.width(), buf.height());
    EncodedImage { bytes }
}

/// Encoding is deterministic, hence idempotent: two encodings of the
/// same raster bytes at the same dimensions are byte-identical.
pub proof fn lemma_encoding_idempotent(
    data: Seq<u8>,
    width: u32,
    height: u32,
    first: Seq<u8>,
    second: Seq<u8>,
)
    requires
        first == webp_lossless(data, width, height),
        second == webp_lossless(data, width, height),
    ensures
        first == second,
{
}

} // verus!
