use tweet_cycle::prompts::{
    generate_prompt_with_topic, writer_prompt_note, DEFAULT_PROMPT_MODEL, TWEET_REQUEST,
    TWEET_SUMMARIZER_PROMPT, TWEET_WRITER_PROMPT,
};

#[test]
fn merge_request_quotes_prompt_and_topic() {
    assert_eq!(
        generate_prompt_with_topic("be funny", "rockets"),
        "Base prompt: \"be funny\"\nTopic: \"rockets\"\nGenerate a new prompt that creatively incorporates both."
    );
    assert_eq!(writer_prompt_note("p"), "Initial tweet-writer prompt:\np");
    assert_eq!(DEFAULT_PROMPT_MODEL, "o3-mini");
    assert_eq!(TWEET_REQUEST, "Create one short tweet now.");
    assert!(TWEET_SUMMARIZER_PROMPT.ends_with("exactly as follows:\nTopic: <your topic here>"));
    assert!(TWEET_WRITER_PROMPT.starts_with("You write funny original tweets."));
}
