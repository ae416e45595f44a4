//! Tests of link detection and in-place rewriting.
use link_expander::links::LinkFamily;
use link_expander::links::fix_twitter_links_in_place;
use link_expander::links::host_in_family;
use link_expander::links::parse_twitter_links_inner;
use link_expander::links::replacement_host_for;

#[test]
fn test_fix_twitter_links_in_place() {
    let original_message = r#"
            This is a message that contains a twitter link (https://twitter.com/test/test), a
            x.com link (https://x.com/test/test), a mobile.twitter.com link
            (https://mobile.twitter.com/test/test), a mobile.x.com link
            (https://mobile.x.com/test/test), an unrelated link
            (https://otherwebsite/test/test), and a weird twitter link
            (https://weird.link.twitter.com/test/test).
        "#;
    let twitter_links = parse_twitter_links_inner(original_message.as_bytes());

    let new_message = fix_twitter_links_in_place(
        original_message.as_bytes().to_vec(),
        twitter_links,
    );
    assert_eq!(
        String::from_utf8(new_message).unwrap(),
        r#"
            This is a message that contains a twitter link (https://fxtwitter.com/test/test), a
            x.com link (https://fixupx.com/test/test), a mobile.twitter.com link
            (https://fxtwitter.com/test/test), a mobile.x.com link
            (https://fixupx.com/test/test), an unrelated link
            (https://otherwebsite/test/test), and a weird twitter link
            (https://weird.link.twitter.com/test/test).
        "#
    );
}

#[test]
fn single_link_is_rewritten() {
    let message = "see https://twitter.com/test/test now";
    let links = parse_twitter_links_inner(message.as_bytes());
    assert_eq!(links.len(), 1);
    assert_eq!(links[0].host, b"twitter.com".to_vec());
    let fixed = fix_twitter_links_in_place(message.as_bytes().to_vec(), links);
    assert_eq!(
        String::from_utf8(fixed).unwrap(),
        "see https://fxtwitter.com/test/test now"
    );
}

#[test]
fn no_recognized_links_yields_empty_matches() {
    let message = "nothing to see at https://example.com/a and plain words";
    let links = parse_twitter_links_inner(message.as_bytes());
    assert!(links.is_empty());
}

#[test]
fn text_without_any_url_yields_empty_matches() {
    let links = parse_twitter_links_inner(b"just words, no links at all");
    assert!(links.is_empty());
}

#[test]
fn unrelated_subdomain_is_not_in_family() {
    assert!(!host_in_family(b"weird.link.twitter.com", LinkFamily::Twitter));
    assert!(host_in_family(b"twitter.com", LinkFamily::Twitter));
    assert!(host_in_family(b"mobile.x.com", LinkFamily::Twitter));
    assert!(host_in_family(b"threads.net", LinkFamily::Threads));
    assert!(host_in_family(b"www.threads.net", LinkFamily::Threads));
    assert!(!host_in_family(b"twitter.com", LinkFamily::Threads));
}

#[test]
fn replacement_table_matches_hosts() {
    assert_eq!(replacement_host_for(b"twitter.com"), b"fxtwitter.com".to_vec());
    assert_eq!(
        replacement_host_for(b"mobile.twitter.com"),
        b"fxtwitter.com".to_vec()
    );
    assert_eq!(replacement_host_for(b"x.com"), b"fixupx.com".to_vec());
    assert_eq!(replacement_host_for(b"mobile.x.com"), b"fixupx.com".to_vec());
    assert_eq!(replacement_host_for(b"anything.else"), b"fxtwitter.com".to_vec());
}

#[test]
fn splicing_two_matches_of_different_length_keeps_other_text() {
    // The two rewritten URLs differ in length from their spans: the text
    // around and between them must come through unchanged.
    let message = "a https://x.com/p b https://twitter.com/q c";
    let links = parse_twitter_links_inner(message.as_bytes());
    assert_eq!(links.len(), 2);
    let fixed = fix_twitter_links_in_place(message.as_bytes().to_vec(), links);
    assert_eq!(
        String::from_utf8(fixed).unwrap(),
        "a https://fixupx.com/p b https://fxtwitter.com/q c"
    );
}
