use social_card::template::{Template, TemplateContext, TemplateError};
use social_card::pipeline::compose_document;

fn render_with(template: &str, name: &str, value: &str) -> Result<Vec<u8>, TemplateError> {
    let t = Template::parse(template.as_bytes())?;
    let mut ctx = TemplateContext::new();
    ctx.bind(name.as_bytes().to_vec(), value.as_bytes().to_vec());
    t.render(&ctx)
}

#[test]
fn substitutes_value_exactly_once() {
    let out = render_with("<svg><text>{{ text }}</text></svg>", "text", "Hello World").unwrap();
    assert_eq!(out, "<svg><text>Hello World</text></svg>".as_bytes().to_vec());
}

#[test]
fn surroundings_identical_across_values() {
    let template = "<svg><text>{{ text }}</text></svg>";
    let a = render_with(template, "text", "one").unwrap();
    let b = render_with(template, "text", "two").unwrap();
    let prefix = "<svg><text>".as_bytes();
    let suffix = "</text></svg>".as_bytes();
    assert_eq!(&a[..prefix.len()], prefix);
    assert_eq!(&b[..prefix.len()], prefix);
    assert_eq!(&a[a.len() - suffix.len()..], suffix);
    assert_eq!(&b[b.len() - suffix.len()..], suffix);
    assert_eq!(&a[prefix.len()..a.len() - suffix.len()], "one".as_bytes());
    assert_eq!(&b[prefix.len()..b.len() - suffix.len()], "two".as_bytes());
}

#[test]
fn escapes_structural_bytes() {
    let out = render_with("<t>{{ text }}</t>", "text", "<b>&\"'").unwrap();
    assert_eq!(out, "<t>&lt;b&gt;&amp;&quot;&apos;</t>".as_bytes().to_vec());
}

#[test]
fn plain_text_stands_verbatim() {
    let out = render_with("{{ text }}", "text", "plain words 123_").unwrap();
    assert_eq!(out, "plain words 123_".as_bytes().to_vec());
}

#[test]
fn unknown_variable_is_an_error() {
    let r = render_with("<t>{{ missing }}</t>", "text", "x");
    assert_eq!(r, Err(TemplateError::UnknownVariable));
}

#[test]
fn unclosed_slot_is_malformed() {
    let r = Template::parse("<t>{{ text".as_bytes());
    assert!(matches!(r, Err(TemplateError::Malformed)));
}

#[test]
fn empty_variable_name_is_malformed() {
    let r = Template::parse("<t>{{ }}</t>".as_bytes());
    assert!(matches!(r, Err(TemplateError::Malformed)));
}

#[test]
fn lone_braces_are_literal_text() {
    let out = render_with("a } b { c }} d", "text", "x").unwrap();
    assert_eq!(out, "a } b { c }} d".as_bytes().to_vec());
}

#[test]
fn repeated_slots_substitute_each_occurrence() {
    let out = render_with("{{ text }}/{{ text }}", "text", "v").unwrap();
    assert_eq!(out, "v/v".as_bytes().to_vec());
}

#[test]
fn compose_document_binds_the_text_variable() {
    let doc = compose_document("<x>{{ text }}</x>".as_bytes(), "hi".as_bytes()).unwrap();
    assert_eq!(doc, "<x>hi</x>".as_bytes().to_vec());
}

#[test]
fn compose_document_reports_template_errors() {
    let r = compose_document("<x>{{".as_bytes(), "hi".as_bytes());
    assert_eq!(r, Err(TemplateError::Malformed));
    let r = compose_document("<x>{{ other }}</x>".as_bytes(), "hi".as_bytes());
    assert_eq!(r, Err(TemplateError::UnknownVariable));
}
