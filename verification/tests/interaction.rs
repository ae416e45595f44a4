//! Tests of invocation resolution and the two command decisions.
use link_expander::Config;
use link_expander::interaction::ExpandThreadsOutcome;
use link_expander::interaction::FixTwitterOutcome;
use link_expander::interaction::InteractionInput;
use link_expander::interaction::MessageCommands;
use link_expander::interaction::OptionInput;
use link_expander::interaction::SlashCommands;
use link_expander::interaction::expand_threads_command;
use link_expander::interaction::fix_twitter_command;
use link_expander::interaction::message_content_from_interaction;
use link_expander::interaction::parse_threads_links;

#[test]
fn slash_command_text_option_wins() {
    let input = InteractionInput::ChatInput {
        options: vec![
            OptionInput::Text("https://x.com/a".to_string()),
            OptionInput::NonText,
        ],
    };
    assert_eq!(
        message_content_from_interaction(&input).as_deref(),
        Some("https://x.com/a")
    );
}

#[test]
fn slash_command_non_text_first_option_resolves_nothing() {
    let input = InteractionInput::ChatInput {
        options: vec![OptionInput::NonText, OptionInput::Text("x".to_string())],
    };
    assert_eq!(message_content_from_interaction(&input), None);
    let empty = InteractionInput::ChatInput { options: vec![] };
    assert_eq!(message_content_from_interaction(&empty), None);
}

#[test]
fn message_command_resolves_first_message() {
    let input = InteractionInput::MessageCommand {
        messages: vec!["first".to_string(), "second".to_string()],
    };
    assert_eq!(message_content_from_interaction(&input).as_deref(), Some("first"));
    assert_eq!(
        message_content_from_interaction(&InteractionInput::Unsupported),
        None
    );
}

#[test]
fn fix_twitter_command_reports_no_links() {
    let input = InteractionInput::ChatInput {
        options: vec![OptionInput::Text(
            "no recognized link in https://example.com/x".to_string(),
        )],
    };
    assert!(matches!(fix_twitter_command(&input), FixTwitterOutcome::NoLinks));
    assert!(matches!(
        fix_twitter_command(&InteractionInput::Unsupported),
        FixTwitterOutcome::NoLinks
    ));
}

#[test]
fn fix_twitter_command_rewrites_message() {
    let input = InteractionInput::MessageCommand {
        messages: vec!["go https://mobile.x.com/test/test".to_string()],
    };
    match fix_twitter_command(&input) {
        FixTwitterOutcome::Fixed(bytes) => {
            assert_eq!(
                String::from_utf8(bytes).unwrap(),
                "go https://fixupx.com/test/test"
            );
        }
        FixTwitterOutcome::NoLinks => panic!("expected a rewritten message"),
    }
}

#[test]
fn threads_links_are_collected_across_messages() {
    let input = InteractionInput::MessageCommand {
        messages: vec![
            "a https://threads.net/@u/post/1 b".to_string(),
            "no links".to_string(),
            "c https://www.threads.net/@u/post/2".to_string(),
        ],
    };
    let urls = parse_threads_links(&input);
    assert_eq!(urls.len(), 2);
    assert_eq!(
        String::from_utf8(urls[0].clone()).unwrap(),
        "https://threads.net/@u/post/1"
    );
    assert_eq!(
        String::from_utf8(urls[1].clone()).unwrap(),
        "https://www.threads.net/@u/post/2"
    );
}

#[test]
fn expand_threads_command_fetches_first_link() {
    let input = InteractionInput::MessageCommand {
        messages: vec!["see https://threads.net/@u/post/1 and https://threads.net/@u/post/2"
            .to_string()],
    };
    match expand_threads_command(&input) {
        ExpandThreadsOutcome::FetchFirst(url) => {
            assert_eq!(
                String::from_utf8(url).unwrap(),
                "https://threads.net/@u/post/1"
            );
        }
        ExpandThreadsOutcome::NoLinks => panic!("expected a link to fetch"),
    }
}

#[test]
fn expand_threads_command_reports_no_links() {
    let input = InteractionInput::MessageCommand {
        messages: vec!["only https://twitter.com/a here".to_string()],
    };
    assert!(matches!(
        expand_threads_command(&input),
        ExpandThreadsOutcome::NoLinks
    ));
}

#[test]
fn command_names() {
    assert_eq!(MessageCommands::ExpandThreadsLink.as_str(), "Expand Threads link");
    assert_eq!(MessageCommands::FixTwitterLink.as_str(), "Fix Twitter link");
    assert_eq!(SlashCommands::FixTwitterLink.as_str(), "fx");
}

#[test]
fn config_holds_the_token() {
    let config = Config { bot_token: "example-token".to_string() };
    assert_eq!(config.bot_token, "example-token");
}
