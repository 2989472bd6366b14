use social_card::payload::ImagePayload;
use social_card::resolve::{classify_response, FetchOutcome};

fn response(content_type: Option<&str>, body: &[u8]) -> FetchOutcome {
    FetchOutcome::Response {
        content_type: content_type.map(|s| s.as_bytes().to_vec()),
        body: body.to_vec(),
    }
}

const SMALL_SVG: &str =
    r#"<svg xmlns="http://www.w3.org/2000/svg" width="10" height="10"><rect width="5" height="5"/></svg>"#;

#[test]
fn png_content_type_yields_png_payload_with_the_bytes() {
    let body = [137u8, 80, 78, 71, 1, 2, 3];
    let r = classify_response(response(Some("image/png"), &body));
    assert_eq!(r, Some(ImagePayload::Png(body.to_vec())));
}

#[test]
fn jpg_content_type_yields_jpeg_payload() {
    let r = classify_response(response(Some("image/jpg"), &[1, 2]));
    assert_eq!(r, Some(ImagePayload::Jpeg(vec![1, 2])));
}

#[test]
fn gif_content_type_yields_gif_payload() {
    let r = classify_response(response(Some("image/gif"), &[9]));
    assert_eq!(r, Some(ImagePayload::Gif(vec![9])));
}

#[test]
fn html_content_type_yields_no_payload() {
    let r = classify_response(response(Some("text/html"), "<html></html>".as_bytes()));
    assert_eq!(r, None);
}

#[test]
fn missing_content_type_yields_no_payload() {
    let r = classify_response(response(None, &[1, 2, 3]));
    assert_eq!(r, None);
}

#[test]
fn connection_failure_yields_no_payload() {
    let r = classify_response(FetchOutcome::Failed);
    assert_eq!(r, None);
}

#[test]
fn parsable_svg_body_yields_svg_payload() {
    let r = classify_response(response(Some("image/svg+xml"), SMALL_SVG.as_bytes()));
    assert_eq!(r, Some(ImagePayload::Svg(SMALL_SVG.as_bytes().to_vec())));
}

#[test]
fn unparsable_svg_body_yields_no_payload() {
    let r = classify_response(response(Some("image/svg+xml"), "not markup".as_bytes()));
    assert_eq!(r, None);
}

#[test]
fn no_sniffing_png_bytes_under_html_type_yield_no_payload() {
    let png_magic = [137u8, 80, 78, 71, 13, 10, 26, 10];
    let r = classify_response(response(Some("text/html"), &png_magic));
    assert_eq!(r, None);
}
