//! The banners under which the agents of a run report: a styled heading,
//! the styled report, and a bar. The banners are handed out as text; the
//! caller prints them.

use vstd::prelude::*;
use owo_colors::OwoColorize;
use crate::text::{chars_of, extend, string_of};

verus! {

/// The width of the bar that closes a banner.
pub const BAR_LENGTH: usize = 120;

/// `text` between the escape sequence that sets the foreground colour
/// `code` and the one that resets it.
pub open spec fn coloured(code: Seq<char>, text: Seq<char>) -> Seq<char> {
    "\x1b["@ + code + "m"@ + text + "\x1b[39m"@
}

/// `text` between the escape sequence that sets the style `code` and the
/// one that resets all styles.
pub open spec fn styled(code: Seq<char>, text: Seq<char>) -> Seq<char> {
    "\x1b["@ + code + "m"@ + text + "\x1b[0m"@
}

/// `OwoColorize::red`, written out. Trusted: the foreground code is 31.
#[verifier::external_body]
fn red(text: &str) -> (out: String)
    ensures
        out@ == coloured("31"@, text@),
{
    format!("{}", text.red())
}

/// `OwoColorize::yellow`, written out. Trusted: the foreground code is 33.
#[verifier::external_body]
fn yellow(text: &str) -> (out: String)
    ensures
        out@ == coloured("33"@, text@),
{
    format!("{}", text.yellow())
}

/// `OwoColorize::blue`, written out. Trusted: the foreground code is 34.
#[verifier::external_body]
fn blue(text: &str) -> (out: String)
    ensures
        out@ == coloured("34"@, text@),
{
    format!("{}", text.blue())
}

/// `OwoColorize::white`, written out. Trusted: the foreground code is 37.
#[verifier::external_body]
fn white(text: &str) -> (out: String)
    ensures
        out@ == coloured("37"@, text@),
{
    format!("{}", text.white())
}

/// `OwoColorize::bright_blue`, written out. Trusted: the foreground code
/// is 94.
#[verifier::external_body]
fn bright_blue(text: &str) -> (out: String)
    ensures
        out@ == coloured("94"@, text@),
{
    format!("{}", text.bright_blue())
}

/// `OwoColorize::bright_magenta`, written out. Trusted: the foreground
/// code is 95.
#[verifier::external_body]
fn bright_magenta(text: &str) -> (out: String)
    ensures
        out@ == coloured("95"@, text@),
{
    format!("{}", text.bright_magenta())
}

/// `OwoColorize::bold`, written out. Trusted: the style code is 1.
#[verifier::external_body]
fn bold(text: &str) -> (out: String)
    ensures
        out@ == styled("1"@, text@),
{
    format!("{}", text.bold())
}

/// `OwoColorize::underline`, written out. Trusted: the style code is 4.
#[verifier::external_body]
fn underline(text: &str) -> (out: String)
    ensures
        out@ == styled("4"@, text@),
{
    format!("{}", text.underline())
}

/// A heading: coloured, bold and underlined.
pub open spec fn heading(code: Seq<char>, title: Seq<char>) -> Seq<char> {
    styled("4"@, styled("1"@, coloured(code, title)))
}

/// A report: coloured and bold.
pub open spec fn report(code: Seq<char>, output: Seq<char>) -> Seq<char> {
    styled("1"@, coloured(code, output))
}

/// The bar that closes a banner.
pub open spec fn bar() -> Seq<char> {
    Seq::new(BAR_LENGTH as nat, |i: int| '\u{2550}')
}

/// A banner: an empty line and the heading, an empty line and the report,
/// and the bar, each ended by a line feed.
pub open spec fn bordered(agent_line: Seq<char>, output_line: Seq<char>) -> Seq<char> {
    "\n"@ + agent_line + "\n"@ + "\n"@ + output_line + "\n"@ + bar() + "\n"@
}

/// Sets a banner.
pub fn print_bordered(agent_line: &str, output_line: &str) -> (banner: String)
    ensures
        banner@ == bordered(agent_line@, output_line@),
{
    let mut v = chars_of("\n");
    extend(&mut v, &chars_of(agent_line));
    extend(&mut v, &chars_of("\n"));
    extend(&mut v, &chars_of("\n"));
    extend(&mut v, &chars_of(output_line));
    extend(&mut v, &chars_of("\n"));
    let ghost before = v@;
    let mut i: usize = 0;
    while i < BAR_LENGTH
        invariant
            i <= BAR_LENGTH,
            v@ == before + bar().take(i as int),
        decreases BAR_LENGTH - i,
    {
        v.push('\u{2550}');
        assert(bar().take(i + 1) =~= bar().take(i as int).push('\u{2550}'));
        i += 1;
    }
    assert(bar().take(BAR_LENGTH as int) =~= bar());
    extend(&mut v, &chars_of("\n"));
    string_of(&v)
}

/// The banner of the summarizer: red.
pub fn summarizer_log(output: &str) -> (banner: String)
    ensures
        banner@ == bordered(heading("31"@, "Summarizer Agent"@), report("31"@, output@)),
{
    let title = underline(bold(red("Summarizer Agent").as_str()).as_str());
    let body = bold(red(output).as_str());
    print_bordered(title.as_str(), body.as_str())
}

/// The banner of the comedian: yellow.
pub fn comedian_log(output: &str) -> (banner: String)
    ensures
        banner@ == bordered(heading("33"@, "Comedian Agent"@), report("33"@, output@)),
{
    let title = underline(bold(yellow("Comedian Agent").as_str()).as_str());
    let body = bold(yellow(output).as_str());
    print_bordered(title.as_str(), body.as_str())
}

/// The banner of the prompt writer: bright blue.
pub fn prompt_writer_log(output: &str) -> (banner: String)
    ensures
        banner@ == bordered(heading("94"@, "Prompt Writer Agent"@), report("94"@, output@)),
{
    let title = underline(bold(bright_blue("Prompt Writer Agent").as_str()).as_str());
    let body = bold(bright_blue(output).as_str());
    print_bordered(title.as_str(), body.as_str())
}

/// The banner of the joke critic: bright magenta.
pub fn joke_critic_log(output: &str) -> (banner: String)
    ensures
        banner@ == bordered(
            heading("95"@, "Joke Critic Writer Agent"@),
            report("95"@, output@),
        ),
{
    let title = underline(bold(bright_magenta("Joke Critic Writer Agent").as_str()).as_str());
    let body = bold(bright_magenta(output).as_str());
    print_bordered(title.as_str(), body.as_str())
}

/// A note of the system: a white heading, then an empty line and the note
/// in blue, each ended by a line feed.
pub open spec fn system_note(output: Seq<char>) -> Seq<char> {
    heading("37"@, "System Log"@) + "\n"@ + "\n"@ + coloured("34"@, output) + "\n"@
}

/// The note of the system.
pub fn system_log(output: &str) -> (note: String)
    ensures
        note@ == system_note(output@),
{
    let title = underline(bold(white("System Log").as_str()).as_str());
    let mut v = chars_of(title.as_str());
    extend(&mut v, &chars_of("\n"));
    extend(&mut v, &chars_of("\n"));
    extend(&mut v, &chars_of(blue(output).as_str()));
    extend(&mut v, &chars_of("\n"));
    string_of(&v)
}

} // verus!
