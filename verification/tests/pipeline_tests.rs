use social_card::pipeline::{compose_document, finish_card};
use social_card::raster::{encode, rasterize};
use social_card::resolve::{FetchOutcome, Resolution};
use social_card::scene::{build_scene, FontSet};
use social_card::tracer::Tracer;
use social_card::{HEIGHT, WIDTH};

const TEMPLATE_NO_IMAGES: &str = r#"<svg xmlns="http://www.w3.org/2000/svg" width="1200" height="630"><rect width="1200" height="630" fill="white"/><text x="40" y="80">{{ text }}</text></svg>"#;

fn run_without_fetching(template: &str, text: &str) -> Vec<u8> {
    let doc = compose_document(template.as_bytes(), text.as_bytes()).unwrap();
    let res = Resolution::begin(&doc);
    assert!(res.done());
    let fonts = FontSet::new();
    finish_card(&doc, &res, &fonts).unwrap().bytes
}

#[test]
fn hello_world_card_decodes_to_the_fixed_dimensions() {
    let bytes = run_without_fetching(TEMPLATE_NO_IMAGES, "Hello World");
    let image = webp::Decoder::new(&bytes).decode().unwrap();
    assert_eq!(image.width(), 1200);
    assert_eq!(image.height(), 630);
}

#[test]
fn buffer_dimensions_do_not_depend_on_the_text() {
    for text in ["", "short", "a very long line of text that changes nothing about size"] {
        let doc = compose_document(TEMPLATE_NO_IMAGES.as_bytes(), text.as_bytes()).unwrap();
        let fonts = FontSet::new();
        let res = Resolution::begin(&doc);
        let tree = build_scene(&doc, &res.resolved, &fonts).unwrap();
        let buf = rasterize(&tree).unwrap();
        assert_eq!(buf.width(), WIDTH);
        assert_eq!(buf.height(), HEIGHT);
    }
}

#[test]
fn encoding_the_same_buffer_twice_is_byte_identical() {
    let doc = compose_document(TEMPLATE_NO_IMAGES.as_bytes(), "same".as_bytes()).unwrap();
    let fonts = FontSet::new();
    let res = Resolution::begin(&doc);
    let tree = build_scene(&doc, &res.resolved, &fonts).unwrap();
    let buf = rasterize(&tree).unwrap();
    let first = encode(&buf);
    let second = encode(&buf);
    assert_eq!(first.bytes, second.bytes);
}

#[test]
fn two_level_nested_scenes_resolve_and_render() {
    let template = r#"<svg xmlns="http://www.w3.org/2000/svg" width="1200" height="630"><text x="40" y="80">{{ text }}</text><image href="http://cards.example/outer.svg" x="0" y="100" width="200" height="200"/></svg>"#;
    let outer_svg = r#"<svg xmlns="http://www.w3.org/2000/svg" width="200" height="200"><image href="http://cards.example/inner.svg" width="100" height="100"/></svg>"#;
    let inner_svg =
        r#"<svg xmlns="http://www.w3.org/2000/svg" width="100" height="100"><rect width="50" height="50"/></svg>"#;
    let doc = compose_document(template.as_bytes(), "nested".as_bytes()).unwrap();
    let mut res = Resolution::begin(&doc);
    let mut steps = 0;
    while !res.done() {
        let reference = res.next_request().unwrap();
        let body: &str = if reference == "http://cards.example/outer.svg".as_bytes() {
            outer_svg
        } else {
            inner_svg
        };
        res.supply(FetchOutcome::Response {
            content_type: Some("image/svg+xml".as_bytes().to_vec()),
            body: body.as_bytes().to_vec(),
        });
        steps += 1;
        assert!(steps <= 2, "resolution must finish after the two fixture levels");
    }
    assert_eq!(steps, 2);
    let fonts = FontSet::new();
    let bytes = finish_card(&doc, &res, &fonts).unwrap().bytes;
    let image = webp::Decoder::new(&bytes).decode().unwrap();
    assert_eq!(image.width(), 1200);
    assert_eq!(image.height(), 630);
}

#[test]
fn tracer_reports_elapsed_time_without_touching_output() {
    let mut tracer = Tracer::new();
    let a = tracer.log();
    let b = tracer.log();
    assert!(a.1 <= b.1, "time since start cannot shrink");
    let first = run_without_fetching(TEMPLATE_NO_IMAGES, "traced");
    let mut t2 = Tracer::new();
    t2.log();
    let second = run_without_fetching(TEMPLATE_NO_IMAGES, "traced");
    assert_eq!(first, second);
}
