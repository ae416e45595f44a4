//! Resolving command invocations and driving the two commands.
//!
//! The platform dispatcher reduces each invocation to a plain payload:
//! the options of a slash command, or the resolved messages of a message
//! command. The engine resolves the triggering text from it and decides
//! what the command does, handing any required I/O back to the caller.
use vstd::prelude::*;
use vstd::string::StrSliceExecFns;
use vstd::utf8::encode_utf8;

use crate::links::LinkFamily;
use crate::links::LinkMatch;
use crate::links::find_links;
use crate::links::find_links_post;
use crate::links::fix_twitter_links_in_place;
use crate::links::found_spans;
use crate::links::parse_twitter_links_inner;
use crate::links::rewritten;
use crate::links::url_normal_form;
use crate::metadata::opt_view;
use crate::text::bytes_range;

verus! {

/// One option of a slash-command invocation: its value is either text or
/// of some other kind.
pub enum OptionInput {
    Text(String),
    NonText,
}

/// A command invocation, reduced to plain values at the platform
/// boundary: a slash command carries its options in order; a message
/// command carries the contents of its resolved messages; anything else
/// is unsupported.
pub enum InteractionInput {
    ChatInput { options: Vec<OptionInput> },
    MessageCommand { messages: Vec<String> },
    Unsupported,
}

/// The triggering text of an invocation: the first option of a slash
/// command when it is text, or the first resolved message of a message
/// command; absent otherwise.
pub open spec fn resolved_content(input: InteractionInput) -> Option<Seq<char>> {
    match input {
        InteractionInput::ChatInput { options } => if options@.len() > 0 {
            match options@[0] {
                OptionInput::Text(s) => Option::Some(s@),
                OptionInput::NonText => Option::None,
            }
        } else {
            Option::None
        },
        InteractionInput::MessageCommand { messages } => if messages@.len() > 0 {
            Option::Some(messages@[0]@)
        } else {
            Option::None
        },
        InteractionInput::Unsupported => Option::None,
    }
}

/// Resolve the triggering message text of an invocation. A slash command
/// yields its first option only when that option is text; a message
/// command yields the content of its first resolved message; an
/// unsupported invocation yields nothing.
pub fn message_content_from_interaction(interaction: &InteractionInput) -> (r: Option<String>)
    ensures
        opt_view(r) == resolved_content(*interaction),
{
    match interaction {
        InteractionInput::ChatInput { options } => {
            if options.len() > 0 {
                match &options[0] {
                    OptionInput::Text(s) => Some(s.clone()),
                    OptionInput::NonText => None,
                }
            } else {
                None
            }
        },
        InteractionInput::MessageCommand { messages } => {
            if messages.len() > 0 {
                Some(messages[0].clone())
            } else {
                None
            }
        },
        InteractionInput::Unsupported => None,
    }
}

/// The UTF-8 bytes of the triggering text of an invocation, empty when
/// none resolves.
pub open spec fn message_bytes(input: InteractionInput) -> Seq<u8> {
    match resolved_content(input) {
        Option::Some(c) => encode_utf8(c),
        Option::None => Seq::empty(),
    }
}

/// Resolve the triggering text and find the Twitter-family links in it.
/// Returns the text as bytes together with the matches.
pub fn parse_twitter_links(interaction: &InteractionInput) -> (r: (Vec<u8>, Vec<LinkMatch>))
    ensures
        r.0@ == message_bytes(*interaction),
        find_links_post(message_bytes(*interaction), LinkFamily::Twitter, r.1@),
{
    let bytes: Vec<u8> = match message_content_from_interaction(interaction) {
        Option::Some(content) => content.as_str().as_bytes_vec(),
        Option::None => Vec::new(),
    };
    proof {
        if resolved_content(*interaction) is None {
            assert(bytes@ =~= message_bytes(*interaction));
        }
    }
    let links = parse_twitter_links_inner(bytes.as_slice());
    (bytes, links)
}

/// What the Twitter-rewrite command does for an invocation: report that
/// no links were found, or replace every matched link and update the
/// message with the rewritten text.
pub enum FixTwitterOutcome {
    NoLinks,
    Fixed(Vec<u8>),
}

/// Decide the Twitter-rewrite command: resolve the text, find the
/// Twitter-family links, and rewrite them in place; an invocation whose
/// text has no such links reports that instead.
pub fn fix_twitter_command(interaction: &InteractionInput) -> (r: FixTwitterOutcome)
    ensures
        r is NoLinks <==> found_spans(message_bytes(*interaction), LinkFamily::Twitter).len()
            == 0,
        exists|ms: Seq<LinkMatch>|
            #[trigger] find_links_post(message_bytes(*interaction), LinkFamily::Twitter, ms) && (
            r matches FixTwitterOutcome::Fixed(t) ==> t@ == rewritten(
                message_bytes(*interaction),
                ms,
            )),
{
    let (content, links) = parse_twitter_links(interaction);
    if links.len() == 0 {
        proof {
            assert(found_spans(message_bytes(*interaction), LinkFamily::Twitter)
                =~= links@.map_values(|m: LinkMatch| (m.start as int, m.end as int)));
        }
        FixTwitterOutcome::NoLinks
    } else {
        let ghost gms = links@;
        let fixed = fix_twitter_links_in_place(content, links);
        proof {
            assert(found_spans(message_bytes(*interaction), LinkFamily::Twitter).len() == gms.len());
        }
        FixTwitterOutcome::Fixed(fixed)
    }
}

/// The normalized URL under a kept span of `text`.
pub open spec fn span_url(text: Seq<u8>, sp: (int, int)) -> Seq<u8> {
    url_normal_form(text.subrange(sp.0, sp.1)).unwrap()
}

/// The normalized Threads-family URLs found in `text`, in order.
pub open spec fn threads_urls(text: Seq<u8>) -> Seq<Seq<u8>> {
    found_spans(text, LinkFamily::Threads).map_values(|sp: (int, int)| span_url(text, sp))
}

/// The resolved message contents of an invocation (empty unless it is a
/// message command).
pub open spec fn resolved_messages(input: InteractionInput) -> Seq<Seq<char>> {
    match input {
        InteractionInput::MessageCommand { messages } => messages@.map_values(|s: String| s@),
        _ => Seq::empty(),
    }
}

/// The Threads-family URLs found across a sequence of message contents,
/// in order.
pub open spec fn all_threads_urls(msgs: Seq<Seq<char>>) -> Seq<Seq<u8>>
    decreases msgs.len(),
{
    if msgs.len() == 0 {
        Seq::empty()
    } else {
        all_threads_urls(msgs.drop_last()) + threads_urls(encode_utf8(msgs.last()))
    }
}

/// Find the Threads-family links in every resolved message of the
/// invocation and return their normalized URLs, in order.
pub fn parse_threads_links(interaction: &InteractionInput) -> (r: Vec<Vec<u8>>)
    ensures
        r@.map_values(|v: Vec<u8>| v@) == all_threads_urls(resolved_messages(*interaction)),
{
    let mut r: Vec<Vec<u8>> = Vec::new();
    match interaction {
        InteractionInput::MessageCommand { messages } => {
            let ghost msgs = messages@.map_values(|s: String| s@);
            let mut i: usize = 0;
            proof {
                assert(msgs.take(0) =~= Seq::<Seq<char>>::empty());
                assert(r@.map_values(|v: Vec<u8>| v@) =~= all_threads_urls(msgs.take(0)));
            }
            while i < messages.len()
                invariant
                    0 <= i <= messages@.len(),
                    msgs == messages@.map_values(|s: String| s@),
                    r@.map_values(|v: Vec<u8>| v@) == all_threads_urls(msgs.take(i as int)),
                decreases messages@.len() - i,
            {
                let bytes = messages[i].as_str().as_bytes_vec();
                let links = find_links(bytes.as_slice(), LinkFamily::Threads);
                let ghost text = bytes@;
                let ghost prev_map = r@.map_values(|v: Vec<u8>| v@);
                let mut j: usize = 0;
                proof {
                    assert(threads_urls(text).take(0) =~= Seq::<Seq<u8>>::empty());
                    assert(prev_map + threads_urls(text).take(0) =~= prev_map);
                }
                while j < links.len()
                    invariant
                        0 <= j <= links@.len(),
                        text == bytes@,
                        find_links_post(text, LinkFamily::Threads, links@),
                        r@.map_values(|v: Vec<u8>| v@) == prev_map + threads_urls(text).take(
                            j as int,
                        ),
                    decreases links@.len() - j,
                {
                    let url = bytes_range(links[j].url.as_slice(), 0, links[j].url.len());
                    let ghost gurl = url@;
                    let ghost old_r = r@;
                    proof {
                        assert(gurl =~= links@[j as int].url@);
                        assert(found_spans(text, LinkFamily::Threads) == links@.map_values(
                            |m: LinkMatch| (m.start as int, m.end as int),
                        ));
                        assert(found_spans(text, LinkFamily::Threads)[j as int] == (
                            links@[j as int].start as int,
                            links@[j as int].end as int,
                        ));
                        assert(threads_urls(text)[j as int] == span_url(
                            text,
                            (links@[j as int].start as int, links@[j as int].end as int),
                        ));
                        assert(threads_urls(text)[j as int] == links@[j as int].url@);
                    }
                    r.push(url);
                    proof {
                        let f = |v: Vec<u8>| v@;
                        assert(r@ == old_r.push(r@.last()));
                        assert(r@.last()@ == gurl);
                        assert(r@.map_values(f).len() == old_r.map_values(f).len() + 1);
                        assert(forall|k: int|
                            0 <= k < old_r.len() ==> #[trigger] r@.map_values(f)[k]
                                == old_r.map_values(f)[k]);
                        assert(r@.map_values(f)[old_r.len() as int] == gurl);
                        assert(threads_urls(text).take(j + 1) =~= threads_urls(text).take(
                            j as int,
                        ).push(threads_urls(text)[j as int]));
                        assert(r@.map_values(f) =~= prev_map + threads_urls(text).take(j + 1));
                        assert(r@.map_values(|v: Vec<u8>| v@) == r@.map_values(f));
                    }
                    j += 1;
                }
                proof {
                    assert(threads_urls(text).take(links@.len() as int) =~= threads_urls(text));
                    assert(msgs.take(i + 1).drop_last() =~= msgs.take(i as int));
                    assert(msgs.take(i + 1).last() == msgs[i as int]);
                    assert(text == encode_utf8(msgs[i as int]));
                    assert(r@.map_values(|v: Vec<u8>| v@) =~= all_threads_urls(msgs.take(i + 1)));
                }
                i += 1;
            }
            proof {
                assert(msgs.take(messages@.len() as int) =~= msgs);
            }
        },
        _ => {
            proof {
                assert(r@.map_values(|v: Vec<u8>| v@) =~= all_threads_urls(
                    resolved_messages(*interaction),
                ));
            }
        },
    }
    r
}

/// What the Threads-expand command does for an invocation: report that no
/// links were found, or fetch the first matched URL and answer with the
/// preview built from the fetched page.
pub enum ExpandThreadsOutcome {
    NoLinks,
    FetchFirst(Vec<u8>),
}

/// Decide the Threads-expand command: find the Threads-family links in
/// the invocation's resolved messages; when there is at least one, the
/// caller is to fetch the first URL and build the preview from the page.
pub fn expand_threads_command(interaction: &InteractionInput) -> (r: ExpandThreadsOutcome)
    ensures
        r is NoLinks <==> all_threads_urls(resolved_messages(*interaction)).len() == 0,
        r matches ExpandThreadsOutcome::FetchFirst(u) ==> u@ == all_threads_urls(
            resolved_messages(*interaction),
        )[0],
{
    let threads_links = parse_threads_links(interaction);
    if threads_links.len() == 0 {
        ExpandThreadsOutcome::NoLinks
    } else {
        let first = bytes_range(threads_links[0].as_slice(), 0, threads_links[0].len());
        proof {
            assert(first@ =~= threads_links@[0]@);
            assert(all_threads_urls(resolved_messages(*interaction))[0] == threads_links@.map_values(
                |v: Vec<u8>| v@,
            )[0]);
        }
        ExpandThreadsOutcome::FetchFirst(first)
    }
}

/// The message commands the bot registers with the platform.
pub enum MessageCommands {
    ExpandThreadsLink,
    FixTwitterLink,
}

impl MessageCommands {
    /// The platform-visible name of the command.
    pub fn as_str(&self) -> (r: &str)
        ensures
            *self is ExpandThreadsLink ==> r@ == "Expand Threads link"@,
            *self is FixTwitterLink ==> r@ == "Fix Twitter link"@,
    {
        match self {
            Self::ExpandThreadsLink => "Expand Threads link",
            Self::FixTwitterLink => "Fix Twitter link",
        }
    }
}

/// The slash commands the bot registers with the platform.
pub enum SlashCommands {
    FixTwitterLink,
}

impl SlashCommands {
    /// The platform-visible name of the command.
    pub fn as_str(&self) -> (r: &str)
        ensures
            r@ == "fx"@,
    {
        match self {
            Self::FixTwitterLink => "fx",
        }
    }
}

} // verus!
