//! Wiring of the rendering stages.
//!
//! A run composes the document from the template and the user text,
//! resolves its external image references through a
//! [`crate::resolve::Resolution`] driven by the caller, and finishes by
//! building, rasterizing and encoding the scene.

use vstd::prelude::*;
use crate::bytes::chars_to_bytes;
use crate::raster::{encode, rasterize, rendered_raster, webp_lossless, EncodedImage};
use crate::resolve::Resolution;
use crate::scan::bind_spec;
use crate::scene::{build_scene, usvg_parses, FontSet, NEST_LIMIT};
use crate::template::{parse_from, render_segs, Template, TemplateContext, TemplateError};

verus! {

/// Why a run failed. Resolver failures are never among these: an
/// unresolved image only omits that image.
#[derive(Debug, PartialEq, Eq, Structural, Clone, Copy)]
pub enum CardError {
    /// The template is malformed or names an unbound variable.
    Template(TemplateError),
    /// The composed document is not well-formed markup.
    Scene,
    /// The pixel buffer could not be allocated.
    Allocation,
}

/// Composes the document: renders the template with the user text
/// bound to the variable `text`.
pub fn compose_document(template_src: &[u8], text: &[u8]) -> (r: Result<Vec<u8>, TemplateError>)
    ensures
        ({
            let p = parse_from(template_src@, 0);
            &&& (p is None) <==> r == Err::<Vec<u8>, TemplateError>(TemplateError::Malformed)
            &&& (p matches Some(segs) ==> {
                let d = render_segs(segs, seq![(chars_to_bytes("text"@), text@)]);
                &&& (r is Ok) == (d is Some)
                &&& (r matches Ok(v) ==> d == Some(v@))
                &&& (d is None ==> r == Err::<Vec<u8>, TemplateError>(
                    TemplateError::UnknownVariable,
                ))
            })
        }),
{
    let template = match Template::parse(template_src) {
        Ok(t) => t,
        Err(e) => {
            return Err(e);
        },
    };
    let mut ctx = TemplateContext::new();
    proof {
        reveal_strlit("text");
    }
    let name = crate::bytes::str_bytes("text");
    ctx.bind(name, vstd::slice::slice_to_vec(text));
    proof {
        assert(ctx.model() =~= seq![(chars_to_bytes("text"@), text@)]);
    }
    template.render(&ctx)
}

/// Finishes a run: binds the recorded resolution outcomes into the
/// document, builds the scene, rasterizes it at the card dimensions and
/// encodes the raster losslessly.
///
/// It fails exactly when the parser rejects the bound document;
/// otherwise it returns the card: the lossless encoding, at the fixed
/// card dimensions, of exactly the raster the renderer paints for the
/// bound document and the given fonts.
pub fn finish_card(doc: &[u8], resolution: &Resolution, fonts: &FontSet) -> (r: Result<
    EncodedImage,
    CardError,
>)
    ensures
        ({
            let bound = bind_spec(doc@, resolution.outcomes(), NEST_LIMIT as nat);
            &&& (r is Ok) == usvg_parses(bound, fonts.model())
            &&& (r matches Err(e) ==> e == CardError::Scene)
            &&& (r matches Ok(img) ==> img.bytes@ == webp_lossless(
                rendered_raster(bound, fonts.model(), crate::WIDTH, crate::HEIGHT),
                crate::WIDTH,
                crate::HEIGHT,
            ))
        }),
{
    let tree = match build_scene(doc, &resolution.resolved, fonts) {
        Ok(t) => t,
        Err(_) => {
            return Err(CardError::Scene);
        },
    };
    let buf = match rasterize(&tree) {
        Ok(b) => b,
        Err(_) => {
            return Err(CardError::Allocation);
        },
    };
    let img = encode(&buf);
    proof {
        assert(buf.spec_data() == rendered_raster(
            bind_spec(doc@, resolution.outcomes(), NEST_LIMIT as nat),
            fonts.model(),
            crate::WIDTH,
            crate::HEIGHT,
        ));
    }
    Ok(img)
}

} // verus!
