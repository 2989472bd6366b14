//! Vector-scene construction on top of the `usvg` parser.
//!
//! The parser itself is outside code; its success on a given document
//! and font set is named by [`usvg_parses`], and every call goes through
//! the trusted wrapper [`tree_from_data`]. External location references
//! are never resolved by the parser here: documents are bound first
//! (see [`crate::scan`]), so only inline data references remain, and the
//! parser decodes those by their declared content type.

use vstd::prelude::*;
use crate::payload::ImagePayload;
use crate::scan::{bind_document, bind_spec, resolved_map};

verus! {

#[verifier::external_type_specification]
#[verifier::external_body]
pub struct ExTree(usvg::Tree);

#[verifier::external_type_specification]
#[verifier::external_body]
pub struct ExUsvgError(usvg::Error);

#[verifier::external_type_specification]
#[verifier::external_body]
pub struct ExFontDatabase(fontdb::Database);

/// The font buffers a database was loaded from, in load order.
/// The order matters: face matching breaks ties by insertion order.
pub uninterp spec fn font_buffers(db: fontdb::Database) -> Seq<Seq<u8>>;

/// Whether the parser accepts a document, given the fonts at hand.
pub uninterp spec fn usvg_parses(doc: Seq<u8>, fonts: Seq<Seq<u8>>) -> bool;

/// The document bytes a scene tree was parsed from.
pub uninterp spec fn scene_doc(tree: usvg::Tree) -> Seq<u8>;

/// The font buffers a scene tree was parsed with, in load order.
pub uninterp spec fn scene_fonts(tree: usvg::Tree) -> Seq<Seq<u8>>;

/// Relies on fontdb::Database::new: a fresh database holds no fonts.
#[verifier::external_body]
fn db_new() -> (db: fontdb::Database)
    ensures
        font_buffers(db) == Seq::<Seq<u8>>::empty(),
{
    fontdb::Database::new()
}

/// Relies on fontdb::Database::load_font_data: the buffer is appended
/// to the database, which keeps whatever font faces it holds, after
/// all faces loaded before it.
#[verifier::external_body]
fn db_load(db: &mut fontdb::Database, data: Vec<u8>)
    ensures
        font_buffers(*final(db)) == font_buffers(*old(db)).push(data@),
{
    db.load_font_data(data)
}

/// The fonts available to text shaping, loaded once and read-only
/// thereafter.
pub struct FontSet {
    db: fontdb::Database,
}

impl FontSet {
    /// The model: the font buffers loaded so far, in load order.
    pub closed spec fn model(&self) -> Seq<Seq<u8>> {
        font_buffers(self.db)
    }

    /// An empty font set.
    pub fn new() -> (fs: FontSet)
        ensures
            fs.model() == Seq::<Seq<u8>>::empty(),
    {
        FontSet { db: db_new() }
    }

    /// Loads one font buffer after those already loaded.
    pub fn add_font(&mut self, data: Vec<u8>)
        ensures
            final(self).model() == old(self).model().push(data@),
    {
        db_load(&mut self.db, data)
    }
}

/// Relies on usvg::Tree::from_data: parses markup into a scene tree,
/// shaping text with the fonts of the given set. The external-location
/// resolver is replaced by one that always declines, so the parser
/// performs no input or output; inline data references are decoded by
/// their declared content type. Whether parsing succeeds depends on the
/// document bytes and the fonts alone.
#[verifier::external_body]
fn tree_from_data(doc: &[u8], fonts: &FontSet) -> (r: Result<usvg::Tree, usvg::Error>)
    ensures
        (r is Ok) == usvg_parses(doc@, fonts.model()),
        r matches Ok(t) ==> scene_doc(t) == doc@ && scene_fonts(t) == fonts.model(),
{
    let mut opt = usvg::Options::default();
    opt.fontdb = fonts.db.clone();
    opt.image_href_resolver = usvg::ImageHrefResolver {
        resolve_string: Box::new(|_, _| None),
        ..usvg::ImageHrefResolver::default()
    };
    usvg::Tree::from_data(doc, &opt.to_ref())
}

/// Why scene construction failed.
#[derive(Debug, PartialEq, Eq, Structural, Clone, Copy)]
pub enum ParseError {
    /// The document itself is not well-formed markup. Unresolved images
    /// never cause this: they are omitted instead.
    Unparsable,
}

/// How many levels of nested scenes are bound into a document.
pub const NEST_LIMIT: u32 = 8;

/// Builds the vector scene: binds the recorded resolution outcomes into
/// the document, then parses it with the given fonts. Fails exactly
/// when the parser rejects the bound document; an unresolved image is
/// omitted, never an error.
pub fn build_scene(
    doc: &[u8],
    entries: &Vec<(Vec<u8>, Option<ImagePayload>)>,
    fonts: &FontSet,
) -> (r: Result<usvg::Tree, ParseError>)
    ensures
        (r is Ok) == usvg_parses(
            bind_spec(doc@, resolved_map(entries@), NEST_LIMIT as nat),
            fonts.model(),
        ),
        r matches Ok(t) ==> scene_doc(t) == bind_spec(
            doc@,
            resolved_map(entries@),
            NEST_LIMIT as nat,
        ) && scene_fonts(t) == fonts.model(),
        r matches Err(e) ==> e == ParseError::Unparsable,
{
    let bound = bind_document(doc, entries, NEST_LIMIT);
    match tree_from_data(bound.as_slice(), fonts) {
        Ok(tree) => Ok(tree),
        Err(_) => Err(ParseError::Unparsable),
    }
}

/// Checks whether a body parses as a vector scene on its own, with no
/// fonts at hand.
pub fn svg_accepted(body: &[u8]) -> (r: bool)
    ensures
        r == usvg_parses(body@, Seq::<Seq<u8>>::empty()),
{
    let fonts = FontSet::new();
    match tree_from_data(body, &fonts) {
        Ok(_) => true,
        Err(_) => false,
    }
}

} // verus!
