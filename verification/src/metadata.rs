//! Open Graph metadata extraction and preview assembly.
//!
//! Given the HTML of a fetched page, the engine looks up a fixed set of
//! meta tags, classifies the page image as a profile thumbnail or a
//! content image by the card type, and assembles a preview record.
use vstd::prelude::*;
use vstd::string::StrSliceExecFns;

verus! {

// ------------------------------------------------------------------
// Trusted boundary: scraper
// ------------------------------------------------------------------
/// The `content` attribute of the first `meta` element of `html` whose
/// attribute `attr_name` equals `attr_value`: `None` when no such element
/// exists (or the selector cannot be built from `attr_value`).
pub uninterp spec fn html_meta(
    html: Seq<char>,
    attr_name: Seq<char>,
    attr_value: Seq<char>,
) -> Option<Seq<char>>;

/// Relies on scraper's `Html::parse_document`, `Selector::parse` and
/// `Html::select`: parsing and selecting are pure functions of the HTML
/// text and the selector, and `select` walks the document in order, so
/// `next` returns the first matching element.
#[verifier::external_body]
pub(crate) fn meta_tag_content(html: &str, attr_name: &str, attr_value: &str) -> (r: Option<
    String,
>)
    ensures
        r is None ==> html_meta(html@, attr_name@, attr_value@) is None,
        r matches Some(s) ==> html_meta(html@, attr_name@, attr_value@) == Some(s@),
{
    let parsed_html = scraper::Html::parse_document(html);
    let tag_selector = match scraper::Selector::parse(
        &format!(r#"meta[{}="{}"]"#, attr_name, attr_value),
    ) {
        Ok(sel) => sel,
        Err(_) => return None,
    };
    parsed_html.select(&tag_selector).next().and_then(|element_ref| element_ref.attr("content")).map(
        |s| s.to_string(),
    )
}

// ------------------------------------------------------------------
// Extraction
// ------------------------------------------------------------------
/// The view of an optional string.
pub open spec fn opt_view(o: Option<String>) -> Option<Seq<char>> {
    match o {
        Option::Some(s) => Option::Some(s@),
        Option::None => Option::None,
    }
}

/// The string under an optional field, or empty when the field is absent.
pub open spec fn or_empty(o: Option<Seq<char>>) -> Seq<char> {
    match o {
        Option::Some(s) => s,
        Option::None => Seq::empty(),
    }
}

pub open spec fn meta_title(html: Seq<char>) -> Option<Seq<char>> {
    html_meta(html, "property"@, "og:title"@)
}

pub open spec fn meta_url(html: Seq<char>) -> Option<Seq<char>> {
    html_meta(html, "property"@, "og:url"@)
}

pub open spec fn meta_description(html: Seq<char>) -> Option<Seq<char>> {
    html_meta(html, "property"@, "og:description"@)
}

pub open spec fn meta_image(html: Seq<char>) -> Option<Seq<char>> {
    html_meta(html, "property"@, "og:image"@)
}

pub open spec fn meta_card(html: Seq<char>) -> Option<Seq<char>> {
    html_meta(html, "name"@, "twitter:card"@)
}

/// The fixed set of meta-tag fields the engine reads from a page; a field
/// is absent when the page lacks the tag — that is never an error.
pub struct MetaFields {
    pub title: Option<String>,
    pub url: Option<String>,
    pub description: Option<String>,
    pub image: Option<String>,
    pub card_type: Option<String>,
}

/// Look up each of the five meta tags in `html`. A missing tag leaves its
/// field absent; no input raises an error.
pub fn extract_metadata(html: &str) -> (m: MetaFields)
    ensures
        opt_view(m.title) == meta_title(html@),
        opt_view(m.url) == meta_url(html@),
        opt_view(m.description) == meta_description(html@),
        opt_view(m.image) == meta_image(html@),
        opt_view(m.card_type) == meta_card(html@),
{
    MetaFields {
        title: meta_tag_content(html, "property", "og:title"),
        url: meta_tag_content(html, "property", "og:url"),
        description: meta_tag_content(html, "property", "og:description"),
        image: meta_tag_content(html, "property", "og:image"),
        card_type: meta_tag_content(html, "name", "twitter:card"),
    }
}

// ------------------------------------------------------------------
// Classification and preview assembly
// ------------------------------------------------------------------
/// The card-type sentinel: a page image is a profile thumbnail exactly
/// when the card type equals "summary".
pub open spec fn is_summary_card(card: Option<Seq<char>>) -> bool {
    match card {
        Option::Some(c) => c == "summary"@,
        Option::None => false,
    }
}

/// Whether `card` equals the "summary" sentinel.
pub fn card_is_summary(card: &Option<String>) -> (r: bool)
    ensures
        r == is_summary_card(opt_view(*card)),
{
    match card {
        Option::Some(c) => {
            let sentinel = String::from_str("summary");
            *c == sentinel
        },
        Option::None => false,
    }
}

/// An image URL an embed can carry: the host platform accepts only the
/// `http:` and `https:` schemes.
pub open spec fn valid_image_url(s: Seq<char>) -> bool {
    "https:"@.is_prefix_of(s) || "http:"@.is_prefix_of(s)
}

/// Whether `p` is a prefix of `s`.
pub fn has_prefix(s: &str, p: &str) -> (r: bool)
    ensures
        r == p@.is_prefix_of(s@),
{
    let n = p.unicode_len();
    if n > s.unicode_len() {
        return false;
    }
    let mut i: usize = 0;
    while i < n
        invariant
            0 <= i <= n,
            n == p@.len(),
            n <= s@.len(),
            forall|j: int| 0 <= j < i ==> p@[j] == s@[j],
        decreases n - i,
    {
        if s.get_char(i) != p.get_char(i) {
            return false;
        }
        i += 1;
    }
    assert(p@ =~= s@.subrange(0, p@.len() as int));
    true
}

/// Whether `url` is an image URL an embed can carry.
pub fn image_url_accepted(url: &str) -> (r: bool)
    ensures
        r == valid_image_url(url@),
{
    has_prefix(url, "https:") || has_prefix(url, "http:")
}

/// How the page image is displayed: a small profile-style thumbnail, a
/// large content image, or nothing.
#[derive(Debug)]
pub enum ImageRef {
    Thumbnail(String),
    ContentImage(String),
    NoImage,
}

/// The error of preview assembly: the page carried an image whose URL the
/// embed cannot accept.
#[derive(Clone, Copy, PartialEq, Eq, Structural, Debug)]
pub enum EmbedBuildError {
    InvalidImageUrl,
}

/// The preview record handed to the response boundary.
#[derive(Debug)]
pub struct PreviewRecord {
    pub title: String,
    pub url: String,
    pub description: String,
    pub image: ImageRef,
}

/// Preview assembly succeeds exactly when the image field, if present,
/// holds an acceptable URL; absent text fields are no error.
pub open spec fn preview_ok(image: Option<Seq<char>>) -> bool {
    match image {
        Option::Some(u) => valid_image_url(u),
        Option::None => true,
    }
}

/// The string of `o`, or empty when absent.
fn unwrap_or_empty(o: Option<String>) -> (r: String)
    ensures
        r@ == or_empty(opt_view(o)),
{
    match o {
        Option::Some(s) => s,
        Option::None => String::new(),
    }
}

/// Build the preview record from the extracted fields. Fails only when an
/// image is present and its URL is not acceptable; empty or missing title,
/// url and description produce a valid, if sparse, preview. The image is a
/// thumbnail exactly when the card type is the "summary" sentinel, a
/// content image when present otherwise, and absent otherwise, whatever
/// the card type.
pub fn build_preview(fields: MetaFields) -> (r: Result<PreviewRecord, EmbedBuildError>)
    ensures
        r is Ok <==> preview_ok(opt_view(fields.image)),
        r matches Ok(p) ==> p.title@ == or_empty(opt_view(fields.title)) && p.url@ == or_empty(
            opt_view(fields.url),
        ) && p.description@ == or_empty(opt_view(fields.description)),
        r matches Ok(p) ==> match opt_view(fields.image) {
            Option::None => p.image is NoImage,
            Option::Some(u) => {
                if is_summary_card(opt_view(fields.card_type)) {
                    p.image matches ImageRef::Thumbnail(t) && t@ == u
                } else {
                    p.image matches ImageRef::ContentImage(t) && t@ == u
                }
            },
        },
        r matches Err(e) ==> e == EmbedBuildError::InvalidImageUrl,
{
    let summary = card_is_summary(&fields.card_type);
    let image: ImageRef = match fields.image {
        Option::Some(u) => {
            if !image_url_accepted(u.as_str()) {
                return Err(EmbedBuildError::InvalidImageUrl);
            }
            if summary {
                ImageRef::Thumbnail(u)
            } else {
                ImageRef::ContentImage(u)
            }
        },
        Option::None => ImageRef::NoImage,
    };
    Ok(
        PreviewRecord {
            title: unwrap_or_empty(fields.title),
            url: unwrap_or_empty(fields.url),
            description: unwrap_or_empty(fields.description),
            image,
        },
    )
}

/// Extract the meta tags of `html` and build the preview record from
/// them: the whole extraction pipeline for one fetched page.
pub fn build_threads_embed_from_html(html: &str) -> (r: Result<PreviewRecord, EmbedBuildError>)
    ensures
        r is Ok <==> preview_ok(meta_image(html@)),
        r matches Ok(p) ==> p.title@ == or_empty(meta_title(html@)) && p.url@ == or_empty(
            meta_url(html@),
        ) && p.description@ == or_empty(meta_description(html@)),
        r matches Ok(p) ==> match meta_image(html@) {
            Option::None => p.image is NoImage,
            Option::Some(u) => {
                if is_summary_card(meta_card(html@)) {
                    p.image matches ImageRef::Thumbnail(t) && t@ == u
                } else {
                    p.image matches ImageRef::ContentImage(t) && t@ == u
                }
            },
        },
        r matches Err(e) ==> e == EmbedBuildError::InvalidImageUrl,
{
    let fields = extract_metadata(html);
    build_preview(fields)
}

} // verus!
