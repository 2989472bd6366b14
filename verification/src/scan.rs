//! Scanning a document for external image references, and binding
//! resolved payloads back into it.
//!
//! An external image reference is the quoted value of an `href`
//! attribute standing inside an `<image …>` tag — either quote style,
//! with markup whitespace allowed around the `=` — whose value names a
//! remote location (it starts with `http://` or `https://`); remote
//! locations on other elements are left alone, and quoted values never
//! end the tag. Binding rewrites each reference value: a resolved
//! payload
//! becomes an inline data reference carrying its content type and the
//! base64 of its body, an unresolved one becomes the empty value, which
//! omits that image while the rest of the scene stands. A nested vector
//! scene is bound the same way before it is inlined, down to a given
//! nesting depth.

use vstd::prelude::*;
use crate::base64::{base64_encode, base64_spec};
use crate::bytes::{chars_to_bytes, check_at, has_at, str_bytes, views_of};
use crate::payload::{
    mime_gif, mime_gif_bytes, mime_jpg, mime_jpg_bytes, mime_png, mime_png_bytes, mime_svg,
    mime_svg_bytes, opt_payload_model, ImagePayload, PayloadModel,
};

verus! {

/// The attribute name that carries a reference value.
pub open spec fn href_mark() -> Seq<u8> {
    chars_to_bytes("href"@)
}

/// A markup whitespace byte: space, tab, line feed or carriage return.
pub open spec fn ws_byte(b: u8) -> bool {
    b == 32 || b == 9 || b == 10 || b == 13
}

/// The first position at or after `j` that does not hold whitespace.
pub open spec fn skip_ws(s: Seq<u8>, j: int) -> int
    decreases s.len() - j,
{
    if j < 0 || j >= s.len() {
        j
    } else if ws_byte(s[j]) {
        skip_ws(s, j + 1)
    } else {
        j
    }
}

pub proof fn lemma_skip_ws_bounds(s: Seq<u8>, j: int)
    requires
        0 <= j <= s.len(),
    ensures
        j <= skip_ws(s, j) <= s.len(),
    decreases s.len() - j,
{
    if j < s.len() && ws_byte(s[j]) {
        lemma_skip_ws_bounds(s, j + 1);
    }
}

/// The position of the `=` of an attribute whose name ends at `i + 4`.
pub open spec fn eq_pos(doc: Seq<u8>, i: int) -> int {
    skip_ws(doc, i + 4)
}

/// The position of the opening quote of that attribute's value.
pub open spec fn quote_pos(doc: Seq<u8>, i: int) -> int {
    skip_ws(doc, eq_pos(doc, i) + 1)
}

/// True when a quoted `href` attribute value opens at position `i`:
/// the name, then `=`, then a double or single quote, with markup
/// whitespace allowed around the `=`.
pub open spec fn href_at(doc: Seq<u8>, i: int) -> bool {
    &&& has_at(doc, href_mark(), i)
    &&& eq_pos(doc, i) < doc.len()
    &&& doc[eq_pos(doc, i)] == 61
    &&& quote_pos(doc, i) < doc.len()
    &&& (doc[quote_pos(doc, i)] == 34 || doc[quote_pos(doc, i)] == 39)
}

/// The remote-location prefix over plain transport.
pub open spec fn http_mark() -> Seq<u8> {
    chars_to_bytes("http://"@)
}

/// The remote-location prefix over encrypted transport.
pub open spec fn https_mark() -> Seq<u8> {
    chars_to_bytes("https://"@)
}

fn href_mark_bytes() -> (v: Vec<u8>)
    ensures
        v@ == href_mark(),
{
    proof {
        reveal_strlit("href");
    }
    str_bytes("href")
}

fn http_mark_bytes() -> (v: Vec<u8>)
    ensures
        v@ == http_mark(),
{
    proof {
        reveal_strlit("http://");
    }
    str_bytes("http://")
}

fn https_mark_bytes() -> (v: Vec<u8>)
    ensures
        v@ == https_mark(),
{
    proof {
        reveal_strlit("https://");
    }
    str_bytes("https://")
}

/// True when an external image reference value opens at position `i`:
/// a quoted `href` value naming a remote location. Whether it stands
/// inside an image tag is tracked separately while scanning.
pub open spec fn reference_at(doc: Seq<u8>, i: int) -> bool {
    &&& href_at(doc, i)
    &&& (has_at(doc, http_mark(), quote_pos(doc, i) + 1) || has_at(
        doc,
        https_mark(),
        quote_pos(doc, i) + 1,
    ))
}

/// The element mark that opens an image tag.
pub open spec fn image_mark() -> Seq<u8> {
    chars_to_bytes("<image"@)
}

/// A byte that may continue an element name: a letter, a digit, a
/// hyphen or a colon.
pub open spec fn name_byte(b: u8) -> bool {
    (97 <= b <= 122) || (65 <= b <= 90) || (48 <= b <= 57) || b == 45 || b == 58
}

/// True when an image tag opens at `i`: the mark stands there and the
/// element name ends with it.
pub open spec fn image_open_at(doc: Seq<u8>, i: int) -> bool {
    &&& has_at(doc, image_mark(), i)
    &&& (i + 6 == doc.len() || !name_byte(doc[i + 6]))
}

fn image_mark_bytes() -> (v: Vec<u8>)
    ensures
        v@ == image_mark(),
{
    proof {
        reveal_strlit("<image");
    }
    str_bytes("<image")
}

fn image_open_exec(doc: &[u8], i: usize) -> (r: bool)
    requires
        i <= doc@.len(),
    ensures
        r == image_open_at(doc@, i as int),
{
    let mark = image_mark_bytes();
    if check_at(doc, mark.as_slice(), i) {
        proof {
            reveal_strlit("<image");
            assert(image_mark().len() == 6);
            assert(has_at(doc@, image_mark(), i as int));
            assert(i + 6 <= doc@.len());
        }
        // Pins the slice length to a machine word, so that `i + 6`
        // below is known not to overflow.
        let doc_len = doc.len();
        proof {
            assert(i + 6 <= doc_len);
        }
        if i + 6 == doc.len() {
            true
        } else {
            let b = doc[i + 6];
            !((97 <= b && b <= 122) || (65 <= b && b <= 90) || (48 <= b && b <= 57) || b == 45
                || b == 58)
        }
    } else {
        false
    }
}

/// The position of the first `q` byte at or after `j`, if any.
pub open spec fn quote_end(doc: Seq<u8>, j: int, q: u8) -> Option<int>
    decreases doc.len() - j,
{
    if j < 0 || j >= doc.len() {
        None
    } else if doc[j] == q {
        Some(j)
    } else {
        quote_end(doc, j + 1, q)
    }
}

pub proof fn lemma_quote_end_bounds(doc: Seq<u8>, j: int, q: u8)
    requires
        0 <= j <= doc.len(),
    ensures
        quote_end(doc, j, q) matches Some(e) ==> j <= e < doc.len() && doc[e] == q,
    decreases doc.len() - j,
{
    if j < doc.len() && doc[j] != q {
        lemma_quote_end_bounds(doc, j + 1, q);
    }
}

/// Bounds of the attribute positions: within a document, the quote of
/// a recognized `href` attribute stands strictly between `i` and the
/// document's end.
pub proof fn lemma_href_at_bounds(doc: Seq<u8>, i: int)
    requires
        0 <= i < doc.len(),
        href_at(doc, i),
    ensures
        i + 4 <= quote_pos(doc, i) < doc.len(),
{
    reveal_strlit("href");
    assert(href_mark().len() == 4);
    lemma_skip_ws_bounds(doc, i + 4);
    lemma_skip_ws_bounds(doc, eq_pos(doc, i) + 1);
}

/// Every external image reference value in the document, in document
/// order, from position `i` on. `inside` says whether position `i`
/// stands inside an image tag; references count only there.
pub open spec fn scan_from(doc: Seq<u8>, i: int, inside: bool) -> Seq<Seq<u8>>
    decreases doc.len() - i,
    when 0 <= i <= doc.len()
    via scan_from_decreases
{
    if i >= doc.len() {
        Seq::empty()
    } else if inside {
        if href_at(doc, i) {
            let k = quote_pos(doc, i);
            match quote_end(doc, k + 1, doc[k]) {
                None => Seq::empty(),
                Some(e) => if reference_at(doc, i) {
                    seq![doc.subrange(k + 1, e)] + scan_from(doc, e + 1, true)
                } else {
                    scan_from(doc, e + 1, true)
                },
            }
        } else if doc[i] == 34 || doc[i] == 39 {
            match quote_end(doc, i + 1, doc[i]) {
                None => Seq::empty(),
                Some(e) => scan_from(doc, e + 1, true),
            }
        } else {
            scan_from(doc, i + 1, doc[i] != 62)
        }
    } else {
        if image_open_at(doc, i) {
            scan_from(doc, i + 6, true)
        } else {
            scan_from(doc, i + 1, false)
        }
    }
}

#[via_fn]
proof fn scan_from_decreases(doc: Seq<u8>, i: int, inside: bool) {
    if 0 <= i < doc.len() && inside {
        if href_at(doc, i) {
            lemma_href_at_bounds(doc, i);
            lemma_quote_end_bounds(doc, quote_pos(doc, i) + 1, doc[quote_pos(doc, i)]);
        } else if doc[i] == 34 || doc[i] == 39 {
            lemma_quote_end_bounds(doc, i + 1, doc[i]);
        }
    }
    if 0 <= i < doc.len() && !inside && image_open_at(doc, i) {
        reveal_strlit("<image");
        assert(image_mark().len() == 6);
        assert(i + 6 <= doc.len());
    }
}

fn quote_end_exec(doc: &[u8], j: usize, q: u8) -> (r: Option<usize>)
    requires
        j <= doc@.len(),
    ensures
        match r {
            None => quote_end(doc@, j as int, q) is None,
            Some(e) => quote_end(doc@, j as int, q) == Some(e as int) && j <= e < doc@.len(),
        },
    decreases doc@.len() - j,
{
    if j >= doc.len() {
        None
    } else if doc[j] == q {
        Some(j)
    } else {
        quote_end_exec(doc, j + 1, q)
    }
}

fn skip_ws_exec(doc: &[u8], j: usize) -> (r: usize)
    requires
        j <= doc@.len(),
    ensures
        r == skip_ws(doc@, j as int),
        j <= r <= doc@.len(),
    decreases doc@.len() - j,
{
    if j < doc.len() {
        let b = doc[j];
        if b == 32 || b == 9 || b == 10 || b == 13 {
            return skip_ws_exec(doc, j + 1);
        }
    }
    j
}

/// Finds the opening quote of an `href` attribute value at `i`, if one
/// stands there.
fn href_quote_exec(doc: &[u8], i: usize) -> (r: Option<usize>)
    requires
        i <= doc@.len(),
    ensures
        (r is Some) == href_at(doc@, i as int),
        r matches Some(k) ==> k == quote_pos(doc@, i as int) && i < k < doc@.len(),
{
    let href = href_mark_bytes();
    if !check_at(doc, href.as_slice(), i) {
        return None;
    }
    proof {
        reveal_strlit("href");
        assert(href_mark().len() == 4);
        assert(has_at(doc@, href_mark(), i as int));
        assert(i + 4 <= doc@.len());
    }
    // Pins the slice length to a machine word, so that `i + 4` below
    // is known not to overflow.
    let doc_len = doc.len();
    proof {
        assert(i + 4 <= doc_len);
    }
    let j = skip_ws_exec(doc, i + 4);
    if j >= doc.len() || doc[j] != 61 {
        return None;
    }
    let k = skip_ws_exec(doc, j + 1);
    if k >= doc.len() {
        return None;
    }
    let q = doc[k];
    if q == 34 || q == 39 {
        Some(k)
    } else {
        None
    }
}

/// Collects the external image reference values from position `i` on.
fn scan_refs_from(doc: &[u8], i: usize, inside: bool) -> (refs: Vec<Vec<u8>>)
    requires
        i <= doc@.len(),
    ensures
        views_of(refs@) == scan_from(doc@, i as int, inside),
    decreases doc@.len() - i,
{
    if i >= doc.len() {
        let refs: Vec<Vec<u8>> = Vec::new();
        proof {
            assert(views_of(refs@) =~= scan_from(doc@, i as int, inside));
        }
        return refs;
    }
    if inside {
        match href_quote_exec(doc, i) {
            Some(k) => {
                let q = doc[k];
                let http = http_mark_bytes();
                let https = https_mark_bytes();
                let is_url = check_at(doc, http.as_slice(), k + 1) || check_at(
                    doc,
                    https.as_slice(),
                    k + 1,
                );
                proof {
                    assert(is_url == reference_at(doc@, i as int));
                }
                match quote_end_exec(doc, k + 1, q) {
                    None => {
                        let refs: Vec<Vec<u8>> = Vec::new();
                        proof {
                            assert(views_of(refs@) =~= scan_from(doc@, i as int, inside));
                        }
                        refs
                    },
                    Some(e) => {
                        let mut rest = scan_refs_from(doc, e + 1, true);
                        if is_url {
                            let ghost rest0 = rest@;
                            let name = vstd::slice::slice_to_vec(
                                vstd::slice::slice_subrange(doc, k + 1, e),
                            );
                            let mut refs: Vec<Vec<u8>> = Vec::new();
                            refs.push(name);
                            refs.append(&mut rest);
                            proof {
                                assert(views_of(refs@) =~= seq![
                                    doc@.subrange(k as int + 1, e as int),
                                ] + views_of(rest0));
                            }
                            refs
                        } else {
                            rest
                        }
                    },
                }
            },
            None => {
                let b = doc[i];
                if b == 34 || b == 39 {
                    match quote_end_exec(doc, i + 1, b) {
                        None => {
                            let refs: Vec<Vec<u8>> = Vec::new();
                            proof {
                                assert(views_of(refs@) =~= scan_from(doc@, i as int, inside));
                            }
                            refs
                        },
                        Some(e) => scan_refs_from(doc, e + 1, true),
                    }
                } else {
                    scan_refs_from(doc, i + 1, b != 62)
                }
            },
        }
    } else {
        if image_open_exec(doc, i) {
            proof {
                reveal_strlit("<image");
                assert(image_mark().len() == 6);
                assert(i + 6 <= doc@.len());
            }
            scan_refs_from(doc, i + 6, true)
        } else {
            scan_refs_from(doc, i + 1, false)
        }
    }
}

/// Collects every external image reference value of the document, in
/// document order.
pub fn scan_references(doc: &[u8]) -> (refs: Vec<Vec<u8>>)
    ensures
        views_of(refs@) == scan_from(doc@, 0, false),
{
    scan_refs_from(doc, 0, false)
}

/// The record of resolution outcomes: the payload found for each
/// reference, or `None` where resolution failed. A later record of the
/// same reference stands.
pub open spec fn resolved_map(entries: Seq<(Vec<u8>, Option<ImagePayload>)>) -> Map<
    Seq<u8>,
    Option<PayloadModel>,
>
    decreases entries.len(),
{
    if entries.len() == 0 {
        Map::empty()
    } else {
        resolved_map(entries.drop_last()).insert(
            entries.last().0@,
            opt_payload_model(entries.last().1),
        )
    }
}

/// An inline data reference: content type, then the base64 of the body.
pub open spec fn data_uri(mime: Seq<u8>, body: Seq<u8>) -> Seq<u8> {
    chars_to_bytes("data:"@) + mime + chars_to_bytes(";base64,"@) + base64_spec(body)
}

/// The value that replaces a reference: an inline data reference for a
/// resolved payload, the empty value for an unresolved one. A nested
/// scene is bound with the same outcomes first, one level deeper.
pub open spec fn substitute(
    r: Seq<u8>,
    m: Map<Seq<u8>, Option<PayloadModel>>,
    depth: nat,
) -> Seq<u8>
    decreases depth, 0int, 0int,
{
    if m.dom().contains(r) {
        match m[r] {
            None => Seq::empty(),
            Some(PayloadModel::Png(b)) => data_uri(mime_png(), b),
            Some(PayloadModel::Jpeg(b)) => data_uri(mime_jpg(), b),
            Some(PayloadModel::Gif(b)) => data_uri(mime_gif(), b),
            Some(PayloadModel::Svg(b)) => {
                if depth > 0 {
                    data_uri(mime_svg(), bind_from(b, m, (depth - 1) as nat, 0, false))
                } else {
                    Seq::empty()
                }
            },
        }
    } else {
        Seq::empty()
    }
}

/// The document from position `i` on with every reference value inside
/// an image tag replaced by its substitute; `inside` says whether
/// position `i` stands inside an image tag. Text after an unclosed
/// reference value stands as it is.
pub open spec fn bind_from(
    doc: Seq<u8>,
    m: Map<Seq<u8>, Option<PayloadModel>>,
    depth: nat,
    i: int,
    inside: bool,
) -> Seq<u8>
    decreases depth, doc.len() - i, 1int,
    when 0 <= i <= doc.len()
    via bind_from_decreases
{
    if i >= doc.len() {
        Seq::empty()
    } else if inside {
        if href_at(doc, i) {
            let k = quote_pos(doc, i);
            match quote_end(doc, k + 1, doc[k]) {
                None => doc.subrange(i, doc.len() as int),
                Some(e) => if reference_at(doc, i) {
                    doc.subrange(i, k + 1) + substitute(doc.subrange(k + 1, e), m, depth) + seq![
                        doc[k],
                    ] + bind_from(doc, m, depth, e + 1, true)
                } else {
                    doc.subrange(i, e + 1) + bind_from(doc, m, depth, e + 1, true)
                },
            }
        } else if doc[i] == 34 || doc[i] == 39 {
            match quote_end(doc, i + 1, doc[i]) {
                None => doc.subrange(i, doc.len() as int),
                Some(e) => doc.subrange(i, e + 1) + bind_from(doc, m, depth, e + 1, true),
            }
        } else {
            seq![doc[i]] + bind_from(doc, m, depth, i + 1, doc[i] != 62)
        }
    } else {
        if image_open_at(doc, i) {
            doc.subrange(i, i + 6) + bind_from(doc, m, depth, i + 6, true)
        } else {
            seq![doc[i]] + bind_from(doc, m, depth, i + 1, false)
        }
    }
}

#[via_fn]
proof fn bind_from_decreases(
    doc: Seq<u8>,
    m: Map<Seq<u8>, Option<PayloadModel>>,
    depth: nat,
    i: int,
    inside: bool,
) {
    if 0 <= i < doc.len() && inside {
        if href_at(doc, i) {
            lemma_href_at_bounds(doc, i);
            lemma_quote_end_bounds(doc, quote_pos(doc, i) + 1, doc[quote_pos(doc, i)]);
        } else if doc[i] == 34 || doc[i] == 39 {
            lemma_quote_end_bounds(doc, i + 1, doc[i]);
        }
    }
    if 0 <= i < doc.len() && !inside && image_open_at(doc, i) {
        reveal_strlit("<image");
        assert(image_mark().len() == 6);
        assert(i + 6 <= doc.len());
    }
}

/// The whole document with every reference value replaced.
pub open spec fn bind_spec(doc: Seq<u8>, m: Map<Seq<u8>, Option<PayloadModel>>, depth: nat) -> Seq<
    u8,
> {
    bind_from(doc, m, depth, 0, false)
}

/// A document in which no external image reference opens anywhere is
/// bound unchanged, whatever the recorded outcomes, the depth, and the
/// tag state.
pub proof fn lemma_bind_without_references(
    doc: Seq<u8>,
    m: Map<Seq<u8>, Option<PayloadModel>>,
    depth: nat,
    i: int,
    inside: bool,
)
    requires
        0 <= i <= doc.len(),
        forall|t: int| 0 <= t < doc.len() ==> !reference_at(doc, t),
    ensures
        bind_from(doc, m, depth, i, inside) == doc.subrange(i, doc.len() as int),
    decreases doc.len() - i,
{
    if i >= doc.len() {
        assert(bind_from(doc, m, depth, i, inside) =~= doc.subrange(i, doc.len() as int));
    } else if inside && href_at(doc, i) {
        lemma_href_at_bounds(doc, i);
        let k = quote_pos(doc, i);
        lemma_quote_end_bounds(doc, k + 1, doc[k]);
        match quote_end(doc, k + 1, doc[k]) {
            None => {},
            Some(e) => {
                lemma_bind_without_references(doc, m, depth, e + 1, true);
                assert(doc.subrange(i, e + 1) + doc.subrange(e + 1, doc.len() as int)
                    =~= doc.subrange(i, doc.len() as int));
            },
        }
    } else if inside && (doc[i] == 34 || doc[i] == 39) {
        lemma_quote_end_bounds(doc, i + 1, doc[i]);
        match quote_end(doc, i + 1, doc[i]) {
            None => {},
            Some(e) => {
                lemma_bind_without_references(doc, m, depth, e + 1, true);
                assert(doc.subrange(i, e + 1) + doc.subrange(e + 1, doc.len() as int)
                    =~= doc.subrange(i, doc.len() as int));
            },
        }
    } else if !inside && image_open_at(doc, i) {
        reveal_strlit("<image");
        assert(image_mark().len() == 6);
        assert(i + 6 <= doc.len());
        lemma_bind_without_references(doc, m, depth, i + 6, true);
        assert(doc.subrange(i, i + 6) + doc.subrange(i + 6, doc.len() as int) =~= doc.subrange(
            i,
            doc.len() as int,
        ));
    } else {
        let next_inside = if inside {
            doc[i] != 62
        } else {
            false
        };
        lemma_bind_without_references(doc, m, depth, i + 1, next_inside);
        assert(seq![doc[i]] + doc.subrange(i + 1, doc.len() as int) =~= doc.subrange(
            i,
            doc.len() as int,
        ));
    }
}

fn find_payload<'a>(
    entries: &'a Vec<(Vec<u8>, Option<ImagePayload>)>,
    j: usize,
    r: &[u8],
) -> (res: Option<&'a Option<ImagePayload>>)
    requires
        j <= entries@.len(),
    ensures
        ({
            let m = resolved_map(entries@.take(j as int));
            &&& (res is Some) == m.dom().contains(r@)
            &&& (res matches Some(p) ==> m.dom().contains(r@) && m[r@] == opt_payload_model(*p))
        }),
    decreases j,
{
    if j == 0 {
        proof {
            assert(entries@.take(0) =~= Seq::<(Vec<u8>, Option<ImagePayload>)>::empty());
        }
        None
    } else {
        proof {
            assert(entries@.take(j as int).drop_last() =~= entries@.take(j as int - 1));
            assert(entries@.take(j as int).last() == entries@[j as int - 1]);
        }
        if crate::bytes::bytes_eq(entries[j - 1].0.as_slice(), r) {
            Some(&entries[j - 1].1)
        } else {
            find_payload(entries, j - 1, r)
        }
    }
}

/// Finds the recorded outcome for a reference, if there is one. A later
/// record of the same reference stands.
pub fn lookup_outcome<'a>(
    entries: &'a Vec<(Vec<u8>, Option<ImagePayload>)>,
    r: &[u8],
) -> (res: Option<&'a Option<ImagePayload>>)
    ensures
        ({
            let m = resolved_map(entries@);
            &&& (res is Some) == m.dom().contains(r@)
            &&& (res matches Some(p) ==> m.dom().contains(r@) && m[r@] == opt_payload_model(*p))
        }),
{
    proof {
        assert(entries@.take(entries@.len() as int) =~= entries@);
    }
    find_payload(entries, entries.len(), r)
}

fn data_uri_bytes(mime: Vec<u8>, body: &[u8]) -> (out: Vec<u8>)
    ensures
        out@ == data_uri(mime@, body@),
{
    proof {
        reveal_strlit("data:");
        reveal_strlit(";base64,");
    }
    let mut out = str_bytes("data:");
    let mut mime_v = mime;
    out.append(&mut mime_v);
    let mut sep = str_bytes(";base64,");
    out.append(&mut sep);
    let mut enc = base64_encode(body);
    out.append(&mut enc);
    out
}

fn bind_exec(
    doc: &[u8],
    entries: &Vec<(Vec<u8>, Option<ImagePayload>)>,
    depth: u32,
    i: usize,
    inside: bool,
) -> (out: Vec<u8>)
    requires
        i <= doc@.len(),
    ensures
        out@ == bind_from(doc@, resolved_map(entries@), depth as nat, i as int, inside),
    decreases depth, doc@.len() - i,
{
    let ghost m = resolved_map(entries@);
    if i >= doc.len() {
        let out: Vec<u8> = Vec::new();
        proof {
            assert(out@ =~= bind_from(doc@, m, depth as nat, i as int, inside));
        }
        return out;
    }
    if !inside {
        if image_open_exec(doc, i) {
            proof {
                reveal_strlit("<image");
                assert(image_mark().len() == 6);
                assert(i + 6 <= doc@.len());
            }
            let mut out = vstd::slice::slice_to_vec(vstd::slice::slice_subrange(doc, i, i + 6));
            let mut rest = bind_exec(doc, entries, depth, i + 6, true);
            let ghost rest0 = rest@;
            out.append(&mut rest);
            proof {
                assert(out@ =~= doc@.subrange(i as int, i as int + 6) + rest0);
            }
            return out;
        } else {
            let mut out: Vec<u8> = Vec::new();
            out.push(doc[i]);
            let mut rest = bind_exec(doc, entries, depth, i + 1, false);
            let ghost rest0 = rest@;
            out.append(&mut rest);
            proof {
                assert(out@ =~= seq![doc@[i as int]] + rest0);
            }
            return out;
        }
    }
    let quote = href_quote_exec(doc, i);
    if quote.is_none() {
        let b = doc[i];
        if b == 34 || b == 39 {
            return match quote_end_exec(doc, i + 1, b) {
                None => vstd::slice::slice_to_vec(vstd::slice::slice_subrange(doc, i, doc.len())),
                Some(e) => {
                    let mut out = vstd::slice::slice_to_vec(
                        vstd::slice::slice_subrange(doc, i, e + 1),
                    );
                    let mut rest = bind_exec(doc, entries, depth, e + 1, true);
                    let ghost rest0 = rest@;
                    out.append(&mut rest);
                    proof {
                        assert(out@ =~= doc@.subrange(i as int, e as int + 1) + rest0);
                    }
                    out
                },
            };
        }
        let mut out: Vec<u8> = Vec::new();
        out.push(b);
        let keep_inside = b != 62;
        let mut rest = bind_exec(doc, entries, depth, i + 1, keep_inside);
        let ghost rest0 = rest@;
        out.append(&mut rest);
        proof {
            assert(out@ =~= seq![doc@[i as int]] + rest0);
        }
        return out;
    }
    let k = quote.unwrap();
    let q = doc[k];
    let http = http_mark_bytes();
    let https = https_mark_bytes();
    let is_url = check_at(doc, http.as_slice(), k + 1) || check_at(doc, https.as_slice(), k + 1);
    proof {
        assert(is_url == reference_at(doc@, i as int));
    }
    if is_url {
        match quote_end_exec(doc, k + 1, q) {
            None => {
                let out = vstd::slice::slice_to_vec(
                    vstd::slice::slice_subrange(doc, i, doc.len()),
                );
                out
            },
            Some(e) => {
                let ghost r = doc@.subrange(k as int + 1, e as int);
                let ref_slice = vstd::slice::slice_subrange(doc, k + 1, e);
                let mut out = vstd::slice::slice_to_vec(
                    vstd::slice::slice_subrange(doc, i, k + 1),
                );
                proof {
                    assert(entries@.take(entries@.len() as int) =~= entries@);
                }
                let mut value: Vec<u8> = match find_payload(entries, entries.len(), ref_slice) {
                    None => {
                        let v: Vec<u8> = Vec::new();
                        proof {
                            assert(v@ =~= substitute(r, m, depth as nat));
                        }
                        v
                    },
                    Some(p) => match p {
                        None => {
                            let v: Vec<u8> = Vec::new();
                            proof {
                                assert(v@ =~= substitute(r, m, depth as nat));
                            }
                            v
                        },
                        Some(ImagePayload::Png(b)) => {
                            let v = data_uri_bytes(mime_png_bytes(), b.as_slice());
                            proof {
                                assert(v@ == substitute(r, m, depth as nat));
                            }
                            v
                        },
                        Some(ImagePayload::Jpeg(b)) => {
                            let v = data_uri_bytes(mime_jpg_bytes(), b.as_slice());
                            proof {
                                assert(v@ == substitute(r, m, depth as nat));
                            }
                            v
                        },
                        Some(ImagePayload::Gif(b)) => {
                            let v = data_uri_bytes(mime_gif_bytes(), b.as_slice());
                            proof {
                                assert(v@ == substitute(r, m, depth as nat));
                            }
                            v
                        },
                        Some(ImagePayload::Svg(b)) => {
                            if depth > 0 {
                                let bound = bind_exec(b.as_slice(), entries, depth - 1, 0, false);
                                let v = data_uri_bytes(mime_svg_bytes(), bound.as_slice());
                                proof {
                                    assert(v@ == substitute(r, m, depth as nat));
                                }
                                v
                            } else {
                                let v: Vec<u8> = Vec::new();
                                proof {
                                    assert(v@ =~= substitute(r, m, depth as nat));
                                }
                                v
                            }
                        },
                    },
                };
                out.append(&mut value);
                out.push(q);
                let mut rest = bind_exec(doc, entries, depth, e + 1, true);
                let ghost rest0 = rest@;
                out.append(&mut rest);
                proof {
                    assert(out@ =~= doc@.subrange(i as int, k as int + 1) + substitute(
                        r,
                        m,
                        depth as nat,
                    ) + seq![doc@[k as int]] + rest0);
                }
                out
            },
        }
    } else {
        match quote_end_exec(doc, k + 1, q) {
            None => vstd::slice::slice_to_vec(vstd::slice::slice_subrange(doc, i, doc.len())),
            Some(e) => {
                let mut out = vstd::slice::slice_to_vec(
                    vstd::slice::slice_subrange(doc, i, e + 1),
                );
                let mut rest = bind_exec(doc, entries, depth, e + 1, true);
                let ghost rest0 = rest@;
                out.append(&mut rest);
                proof {
                    assert(out@ =~= doc@.subrange(i as int, e as int + 1) + rest0);
                }
                out
            },
        }
    }
}

/// Rewrites every external image reference value of the document from
/// its recorded resolution outcome, binding nested scenes down to
/// `depth` levels.
pub fn bind_document(
    doc: &[u8],
    entries: &Vec<(Vec<u8>, Option<ImagePayload>)>,
    depth: u32,
) -> (out: Vec<u8>)
    ensures
        out@ == bind_spec(doc@, resolved_map(entries@), depth as nat),
{
    bind_exec(doc, entries, depth, 0, false)
}

} // verus!
