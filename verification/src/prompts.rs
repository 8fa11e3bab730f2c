//! What the text-generation agents are told.

use vstd::prelude::*;
use crate::text::{chars_of, extend, string_of};

verus! {

/// The model that writes.
pub const DEFAULT_PROMPT_MODEL: &'static str = "o3-mini";

pub const MODEL_NAME: &'static str = "o3-mini";

/// The style of the writer.
pub const TWEET_WRITER_PROMPT: &'static str =
    "You write funny original tweets. Be grounded in reality. don't ever mention tweeting. No Poems ever. You never use emojis. You don't capitalize or use !'s. You use internet humor. Never use hashtags. Add spacing between lines.";

/// The task of the summarizer. Its answer names the topic in a line that
/// begins with `Topic:`.
pub const TWEET_SUMMARIZER_PROMPT: &'static str =
    "Given a collection of tweets, create a topic. Be specific, use context from the Tweets. Don't be generic. Use quotes and words from the Tweet. Don't be boring. Do not be generic. Make the topic specific. Instead of Tech, name the Tech. Make it a short concise topic. Be detailed. No more than 5 words. Pick out individual stories and tweets. Be specific. Format your answer exactly as follows:\nTopic: <your topic here>";

/// The task of the agent that merges a style with a topic.
pub const MERGE_PREAMBLE: &'static str =
    "You are a creative prompt generator. Merge the given base prompt with the provided topic into one clear and engaging prompt.";

/// What the writer is asked for.
pub const TWEET_REQUEST: &'static str = "Create one short tweet now.";

/// The request to merge `base_prompt` with `topic`: both in double quotes,
/// each on a line of its own, and the instruction behind them.
pub open spec fn merge_request(base_prompt: Seq<char>, topic: Seq<char>) -> Seq<char> {
    "Base prompt: \""@ + base_prompt + "\"\nTopic: \""@ + topic
        + "\"\nGenerate a new prompt that creatively incorporates both."@
}

/// Writes the request that merges a base prompt with a topic.
pub fn generate_prompt_with_topic(base_prompt: &str, topic: &str) -> (request: String)
    ensures
        request@ == merge_request(base_prompt@, topic@),
{
    let mut v = chars_of("Base prompt: \"");
    extend(&mut v, &chars_of(base_prompt));
    extend(&mut v, &chars_of("\"\nTopic: \""));
    extend(&mut v, &chars_of(topic));
    extend(&mut v, &chars_of("\"\nGenerate a new prompt that creatively incorporates both."));
    string_of(&v)
}

/// The note that reports the writer's merged prompt.
pub open spec fn writer_note(prompt: Seq<char>) -> Seq<char> {
    "Initial tweet-writer prompt:\n"@ + prompt
}

/// Writes the note that reports the writer's merged prompt.
pub fn writer_prompt_note(merged_prompt: &str) -> (note: String)
    ensures
        note@ == writer_note(merged_prompt@),
{
    let mut v = chars_of("Initial tweet-writer prompt:\n");
    extend(&mut v, &chars_of(merged_prompt));
    string_of(&v)
}

} // verus!
