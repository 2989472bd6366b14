use social_card::payload::ImagePayload;
use social_card::resolve::{FetchOutcome, Resolution};
use social_card::scan::{bind_document, scan_references};
use social_card::scene::{build_scene, FontSet};

fn response(content_type: &str, body: &[u8]) -> FetchOutcome {
    FetchOutcome::Response {
        content_type: Some(content_type.as_bytes().to_vec()),
        body: body.to_vec(),
    }
}

const DOC_ONE_IMAGE: &str = r#"<svg xmlns="http://www.w3.org/2000/svg" width="20" height="20"><image href="http://cards.example/a.png" width="10" height="10"/></svg>"#;

#[test]
fn scan_finds_references_in_order() {
    let doc = r#"<image href="http://h/a.png"/><image href="https://h/b.png"/>"#;
    let refs = scan_references(doc.as_bytes());
    assert_eq!(refs.len(), 2);
    assert_eq!(refs[0], "http://h/a.png".as_bytes().to_vec());
    assert_eq!(refs[1], "https://h/b.png".as_bytes().to_vec());
}

#[test]
fn references_outside_image_elements_are_ignored() {
    let doc = r#"<a href="http://h/page.html">x</a><image href="http://h/a.png"/>"#;
    let refs = scan_references(doc.as_bytes());
    assert_eq!(refs.len(), 1);
    assert_eq!(refs[0], "http://h/a.png".as_bytes().to_vec());
    let entries = vec![(
        "http://h/a.png".as_bytes().to_vec(),
        Some(ImagePayload::Png(vec![1, 2, 3])),
    )];
    let out = bind_document(doc.as_bytes(), &entries, 8);
    assert_eq!(
        String::from_utf8(out).unwrap(),
        r#"<a href="http://h/page.html">x</a><image href="data:image/png;base64,AQID"/>"#
    );
}

#[test]
fn single_quoted_and_spaced_references_are_recognized() {
    let doc = "<image href = 'http://h/a.png'/><image xlink:href=\t\"http://h/b.png\"/>";
    let refs = scan_references(doc.as_bytes());
    assert_eq!(refs.len(), 2);
    assert_eq!(refs[0], "http://h/a.png".as_bytes().to_vec());
    assert_eq!(refs[1], "http://h/b.png".as_bytes().to_vec());
    let entries = vec![
        ("http://h/a.png".as_bytes().to_vec(), Some(ImagePayload::Png(vec![1, 2, 3]))),
        ("http://h/b.png".as_bytes().to_vec(), None),
    ];
    let out = bind_document(doc.as_bytes(), &entries, 8);
    assert_eq!(
        String::from_utf8(out).unwrap(),
        "<image href = 'data:image/png;base64,AQID'/><image xlink:href=\t\"\"/>"
    );
}

#[test]
fn quoted_closing_bracket_does_not_end_the_tag() {
    let doc = r#"<image id="a>b" href="http://h/a.png"/>"#;
    let refs = scan_references(doc.as_bytes());
    assert_eq!(refs.len(), 1);
    assert_eq!(refs[0], "http://h/a.png".as_bytes().to_vec());
}

#[test]
fn scan_ignores_local_and_inline_references() {
    let doc = r#"<image href="file.png"/><image href="data:image/png;base64,AQID"/>"#;
    let refs = scan_references(doc.as_bytes());
    assert_eq!(refs.len(), 0);
}

#[test]
fn begin_queues_each_distinct_reference_once() {
    let doc = r#"<image href="http://h/a.png"/><image href="http://h/a.png"/>"#;
    let res = Resolution::begin(doc.as_bytes());
    assert_eq!(res.next_request(), Some("http://h/a.png".as_bytes().to_vec()));
    assert_eq!(res.pending.len(), 1);
}

#[test]
fn binding_a_resolved_image_inlines_its_bytes() {
    let doc = r#"<image href="http://h/a.png"/>"#;
    let entries = vec![(
        "http://h/a.png".as_bytes().to_vec(),
        Some(ImagePayload::Png(vec![1, 2, 3])),
    )];
    let out = bind_document(doc.as_bytes(), &entries, 8);
    assert_eq!(
        String::from_utf8(out).unwrap(),
        r#"<image href="data:image/png;base64,AQID"/>"#
    );
}

#[test]
fn binding_an_unresolved_image_empties_its_reference() {
    let doc = r#"<image href="http://h/a.png"/>"#;
    let entries = vec![("http://h/a.png".as_bytes().to_vec(), None)];
    let out = bind_document(doc.as_bytes(), &entries, 8);
    assert_eq!(String::from_utf8(out).unwrap(), r#"<image href=""/>"#);
}

#[test]
fn failed_fetch_degrades_and_scene_still_builds() {
    let mut res = Resolution::begin(DOC_ONE_IMAGE.as_bytes());
    assert!(!res.done());
    res.supply(FetchOutcome::Failed);
    assert!(res.done());
    let fonts = FontSet::new();
    let scene = build_scene(DOC_ONE_IMAGE.as_bytes(), &res.resolved, &fonts);
    assert!(scene.is_ok());
}

#[test]
fn html_response_degrades_and_scene_still_builds() {
    let mut res = Resolution::begin(DOC_ONE_IMAGE.as_bytes());
    res.supply(response("text/html", "<html></html>".as_bytes()));
    assert!(res.done());
    let fonts = FontSet::new();
    let scene = build_scene(DOC_ONE_IMAGE.as_bytes(), &res.resolved, &fonts);
    assert!(scene.is_ok());
}

#[test]
fn nested_scene_references_are_queued_in_turn() {
    let outer = r#"<svg xmlns="http://www.w3.org/2000/svg" width="20" height="20"><image href="http://cards.example/one.svg" width="10" height="10"/></svg>"#;
    let inner = r#"<svg xmlns="http://www.w3.org/2000/svg" width="10" height="10"><image href="http://cards.example/two.png" width="5" height="5"/></svg>"#;
    let mut res = Resolution::begin(outer.as_bytes());
    assert_eq!(
        res.next_request(),
        Some("http://cards.example/one.svg".as_bytes().to_vec())
    );
    res.supply(response("image/svg+xml", inner.as_bytes()));
    assert_eq!(
        res.next_request(),
        Some("http://cards.example/two.png".as_bytes().to_vec())
    );
    res.supply(response("image/png", &[1, 2, 3]));
    assert!(res.done());
    let fonts = FontSet::new();
    let scene = build_scene(outer.as_bytes(), &res.resolved, &fonts);
    assert!(scene.is_ok());
}
