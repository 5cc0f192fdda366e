//! Detecting a mention of everyone in the text of a message.

use vstd::prelude::*;
use crate::message::MessageContent;
use crate::text::{has_substring, str_contains};

verus! {

/// What `regex_lite` answers when the regular expression `pattern` is
/// compiled and searched for in `haystack`: `None` if the pattern does not
/// compile, otherwise whether some part of the haystack matches.
pub uninterp spec fn regex_lite_match(pattern: Seq<char>, haystack: Seq<char>) -> Option<bool>;

/// The word that mentions everyone.
pub open spec fn everyone_word() -> Seq<char> {
    "@everyone"@
}

/// The pattern that finds the word standing alone: at the start of the
/// text or after white space or a bracket, and before the end of the text,
/// white space or a bracket.
pub open spec fn everyone_pattern() -> Seq<char> {
    r"(^|[\s(){}\[\]])@everyone($|[\s(){}\[\]])"@
}

/// Compiles `pattern` with `regex_lite::Regex::new` and asks
/// `Regex::is_match` whether it matches anywhere in `haystack`. The answer
/// is the one that the crate gives for these two strings; a pattern that
/// does not compile gives `None`.
#[verifier::external_body]
fn regex_is_match(pattern: &str, haystack: &str) -> (r: Option<bool>)
    ensures
        r == regex_lite_match(pattern@, haystack@),
{
    match regex_lite::Regex::new(pattern) {
        Ok(regex) => Some(regex.is_match(haystack)),
        Err(_) => None,
    }
}

/// Whether a text mentions everyone, given what the pattern search
/// answered for it: the word must occur in the text and the search must
/// have found the pattern.
pub open spec fn text_mentions_everyone(text: Seq<char>, pattern_found: Option<bool>) -> bool {
    has_substring(text, everyone_word()) && pattern_found == Some(true)
}

/// Whether the content of a message mentions everyone: it shows a text,
/// the word occurs in the text, and the pattern is found in it.
pub open spec fn mentions_everyone(content: MessageContent) -> bool {
    match content.spec_text() {
        Some(text) => text_mentions_everyone(text, regex_lite_match(everyone_pattern(), text)),
        None => false,
    }
}

/// Decides whether a text mentions everyone from the answer of the
/// pattern search.
pub fn everyone_mentioned_in_text(word_occurs: bool, pattern_found: Option<bool>) -> (r: bool)
    ensures
        r == (word_occurs && pattern_found == Some(true)),
{
    word_occurs && match pattern_found {
        Some(found) => found,
        None => false,
    }
}

/// Whether the content of a message mentions everyone.
pub fn is_everyone_mentioned(content: &MessageContent) -> (r: bool)
    ensures
        r == mentions_everyone(*content),
{
    match content.text() {
        Some(text) => {
            let word_occurs = str_contains(text.as_str(), "@everyone");
            if !word_occurs {
                return false;
            }
            let pattern_found = regex_is_match(r"(^|[\s(){}\[\]])@everyone($|[\s(){}\[\]])", text.as_str());
            everyone_mentioned_in_text(word_occurs, pattern_found)
        },
        None => false,
    }
}

} // verus!
