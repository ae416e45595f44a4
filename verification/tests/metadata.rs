//! Tests of metadata extraction, image classification and preview assembly.
use link_expander::metadata::EmbedBuildError;
use link_expander::metadata::ImageRef;
use link_expander::metadata::MetaFields;
use link_expander::metadata::build_preview;
use link_expander::metadata::build_threads_embed_from_html;
use link_expander::metadata::extract_metadata;
use link_expander::metadata::image_url_accepted;

fn fields(
    title: Option<&str>,
    url: Option<&str>,
    description: Option<&str>,
    image: Option<&str>,
    card_type: Option<&str>,
) -> MetaFields {
    MetaFields {
        title: title.map(str::to_string),
        url: url.map(str::to_string),
        description: description.map(str::to_string),
        image: image.map(str::to_string),
        card_type: card_type.map(str::to_string),
    }
}

#[test]
fn summary_card_classifies_thumbnail() {
    let r = build_preview(fields(
        Some("Hello"),
        None,
        None,
        Some("https://img/a.png"),
        Some("summary"),
    ))
    .unwrap();
    assert_eq!(r.title, "Hello");
    assert_eq!(r.url, "");
    assert_eq!(r.description, "");
    assert!(matches!(r.image, ImageRef::Thumbnail(u) if u == "https://img/a.png"));
}

#[test]
fn other_card_classifies_content_image() {
    let r = build_preview(fields(
        None,
        None,
        None,
        Some("https://img/a.png"),
        Some("summary_large_image"),
    ))
    .unwrap();
    assert!(matches!(r.image, ImageRef::ContentImage(u) if u == "https://img/a.png"));
}

#[test]
fn missing_card_classifies_content_image() {
    let r = build_preview(fields(None, None, None, Some("https://img/a.png"), None)).unwrap();
    assert!(matches!(r.image, ImageRef::ContentImage(u) if u == "https://img/a.png"));
}

#[test]
fn absent_image_classifies_no_image_whatever_the_card() {
    let r = build_preview(fields(Some("t"), None, None, None, Some("summary"))).unwrap();
    assert!(matches!(r.image, ImageRef::NoImage));
    let r = build_preview(fields(Some("t"), None, None, None, None)).unwrap();
    assert!(matches!(r.image, ImageRef::NoImage));
}

#[test]
fn invalid_image_url_fails_preview() {
    let r = build_preview(fields(Some("t"), None, None, Some("ftp://img/a.png"), None));
    assert_eq!(r.unwrap_err(), EmbedBuildError::InvalidImageUrl);
}

#[test]
fn image_url_scheme_check() {
    assert!(image_url_accepted("https://img/a.png"));
    assert!(image_url_accepted("http://img/a.png"));
    assert!(!image_url_accepted("ftp://img/a.png"));
    assert!(!image_url_accepted(""));
    assert!(!image_url_accepted("http"));
}

#[test]
fn extract_metadata_reads_the_five_tags() {
    let html = r#"<html><head>
        <meta property="og:title" content="Hello"/>
        <meta property="og:url" content="https://example.com/post/1"/>
        <meta property="og:description" content="A post"/>
        <meta property="og:image" content="https://img/a.png"/>
        <meta name="twitter:card" content="summary"/>
        </head><body></body></html>"#;
    let m = extract_metadata(html);
    assert_eq!(m.title.as_deref(), Some("Hello"));
    assert_eq!(m.url.as_deref(), Some("https://example.com/post/1"));
    assert_eq!(m.description.as_deref(), Some("A post"));
    assert_eq!(m.image.as_deref(), Some("https://img/a.png"));
    assert_eq!(m.card_type.as_deref(), Some("summary"));
}

#[test]
fn extract_metadata_missing_tag_is_absent_not_an_error() {
    let html = r#"<html><head>
        <meta property="og:url" content="https://example.com/post/1"/>
        </head><body></body></html>"#;
    let m = extract_metadata(html);
    assert_eq!(m.title, None);
    assert_eq!(m.url.as_deref(), Some("https://example.com/post/1"));
    assert_eq!(m.description, None);
    assert_eq!(m.image, None);
    assert_eq!(m.card_type, None);
}

#[test]
fn extract_metadata_takes_the_first_matching_tag() {
    let html = r#"<html><head>
        <meta property="og:title" content="First"/>
        <meta property="og:title" content="Second"/>
        </head><body></body></html>"#;
    let m = extract_metadata(html);
    assert_eq!(m.title.as_deref(), Some("First"));
}

#[test]
fn build_embed_from_summary_page() {
    let html = r#"<html><head>
        <meta property="og:title" content="Hello"/>
        <meta name="twitter:card" content="summary"/>
        <meta property="og:image" content="https://img/a.png"/>
        </head><body></body></html>"#;
    let p = build_threads_embed_from_html(html).unwrap();
    assert_eq!(p.title, "Hello");
    assert!(matches!(p.image, ImageRef::Thumbnail(u) if u == "https://img/a.png"));
}

#[test]
fn build_embed_without_image_is_sparse_but_valid() {
    let html = r#"<html><head><meta property="og:title" content="Hello"/></head></html>"#;
    let p = build_threads_embed_from_html(html).unwrap();
    assert_eq!(p.title, "Hello");
    assert_eq!(p.url, "");
    assert_eq!(p.description, "");
    assert!(matches!(p.image, ImageRef::NoImage));
}
