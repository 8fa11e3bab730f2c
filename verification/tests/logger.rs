use owo_colors::OwoColorize;
use tweet_cycle::logger::{
    comedian_log, joke_critic_log, print_bordered, prompt_writer_log, summarizer_log, system_log,
    BAR_LENGTH,
};

fn bar() -> String {
    "\u{2550}".repeat(BAR_LENGTH)
}

fn banner(agent_line: String, output_line: String) -> String {
    format!("\n{}\n\n{}\n{}\n", agent_line, output_line, bar())
}

#[test]
fn banner_is_heading_report_and_bar() {
    assert_eq!(BAR_LENGTH, 120);
    assert_eq!(print_bordered("who", "what"), format!("\nwho\n\nwhat\n{}\n", bar()));
    assert_eq!(print_bordered("", "").chars().count(), 4 + 120 + 1);
}

#[test]
fn summarizer_reports_in_red() {
    assert_eq!(
        summarizer_log("Topic: x"),
        format!(
            "\n\x1b[4m\x1b[1m\x1b[31mSummarizer Agent\x1b[39m\x1b[0m\x1b[0m\n\n\x1b[1m\x1b[31mTopic: x\x1b[39m\x1b[0m\n{}\n",
            bar()
        )
    );
    assert_eq!(
        summarizer_log("out"),
        banner(
            format!("{}", "Summarizer Agent".red().bold().underline()),
            format!("{}", "out".red().bold())
        )
    );
}

#[test]
fn comedian_reports_in_yellow() {
    assert_eq!(
        comedian_log("ha"),
        banner(
            format!("{}", "Comedian Agent".yellow().bold().underline()),
            format!("{}", "ha".yellow().bold())
        )
    );
    assert!(comedian_log("ha").contains("\x1b[33mha\x1b[39m"));
}

#[test]
fn prompt_writer_reports_in_bright_blue() {
    assert_eq!(
        prompt_writer_log("p"),
        banner(
            format!("{}", "Prompt Writer Agent".bright_blue().bold().underline()),
            format!("{}", "p".bright_blue().bold())
        )
    );
    assert!(prompt_writer_log("p").contains("\x1b[94mp\x1b[39m"));
}

#[test]
fn joke_critic_reports_in_bright_magenta() {
    assert_eq!(
        joke_critic_log("meh"),
        banner(
            format!("{}", "Joke Critic Writer Agent".bright_magenta().bold().underline()),
            format!("{}", "meh".bright_magenta().bold())
        )
    );
    assert!(joke_critic_log("meh").contains("\x1b[95mmeh\x1b[39m"));
}

#[test]
fn system_notes_have_a_white_heading_and_a_blue_body() {
    assert_eq!(
        system_log("note"),
        format!(
            "{}\n\n{}\n",
            "System Log".white().bold().underline(),
            "note".blue()
        )
    );
    assert_eq!(
        system_log(""),
        "\x1b[4m\x1b[1m\x1b[37mSystem Log\x1b[39m\x1b[0m\x1b[0m\n\n\x1b[34m\x1b[39m\n"
    );
}
