use tweet_cycle::captions::{
    convert, parse_srt, parse_srt_timestamp, spans, split_blocks, SubtitleLine,
};
use tweet_cycle::error::CaptionError;

fn chars(s: &str) -> Vec<char> {
    s.chars().collect()
}

fn strings(pieces: Vec<Vec<char>>) -> Vec<String> {
    pieces.into_iter().map(|p| p.into_iter().collect()).collect()
}

#[test]
fn timestamp_reads_as_milliseconds() {
    assert_eq!(parse_srt_timestamp("00:00:01,000"), Ok(1000));
    assert_eq!(parse_srt_timestamp("01:02:03,004"), Ok(3_723_004));
    assert_eq!(parse_srt_timestamp("  00:00:03,000 "), Ok(3000));
    assert_eq!(parse_srt_timestamp("0:0:0,5"), Ok(5));
    assert_eq!(parse_srt_timestamp("10:00:00,000"), Ok(36_000_000));
}

#[test]
fn timestamp_without_millisecond_part_is_malformed() {
    assert_eq!(parse_srt_timestamp("1:2:3"), Err(CaptionError::MalformedTimestamp));
}

#[test]
fn timestamp_with_wrong_parts_is_malformed() {
    for bad in [
        "",
        "   ",
        "00:00,000",
        "00:00:00:00,000",
        "1:2:3,4,5",
        "a:b:c,d",
        "00:00:01,",
        ",000",
        "00:00:-1,000",
        "00:00:1.5,000",
        "00: 00:01,000",
    ] {
        assert_eq!(parse_srt_timestamp(bad), Err(CaptionError::MalformedTimestamp), "{bad:?}");
    }
}

#[test]
fn timestamp_too_large_for_the_machine_is_malformed() {
    assert_eq!(
        parse_srt_timestamp("99999999999999999999:00:00,000"),
        Err(CaptionError::MalformedTimestamp)
    );
    assert_eq!(
        parse_srt_timestamp("18446744073709551615:00:00,000"),
        Err(CaptionError::MalformedTimestamp)
    );
    assert_eq!(parse_srt_timestamp("0:0:0,18446744073709551615"), Ok(u64::MAX));
    assert_eq!(
        parse_srt_timestamp("0:0:1,18446744073709551615"),
        Err(CaptionError::MalformedTimestamp)
    );
}

#[test]
fn emphasized_span_is_kept_under_its_time_range() {
    let raw = "7\n00:00:01,000 --> 00:00:03,000\n<u>rocket</u>\n";
    let normalized = convert(raw);
    assert_eq!(normalized, "1\n00:00:01,000 --> 00:00:03,000\nrocket\n");
    let lines = parse_srt(&normalized).unwrap();
    assert_eq!(
        lines,
        vec![SubtitleLine { start: 1000, end: 3000, text: "rocket".to_string() }]
    );
}

#[test]
fn block_without_emphasized_span_is_dropped() {
    let raw = "1\n00:00:01,000 --> 00:00:03,000\nplain words only\n";
    assert_eq!(convert(raw), "");
    assert_eq!(parse_srt(&convert(raw)), Ok(vec![]));
}

#[test]
fn kept_blocks_are_renumbered_in_order() {
    let raw = "4\n00:00:01,000 --> 00:00:02,000\nthe <u>first</u> one\n\n\
               5\n00:00:02,000 --> 00:00:03,000\nnothing here\n\n\
               6\n00:00:03,000 --> 00:00:04,500\n<u>second</u>\n";
    let normalized = convert(raw);
    assert_eq!(
        normalized,
        "1\n00:00:01,000 --> 00:00:02,000\nfirst\n\n2\n00:00:03,000 --> 00:00:04,500\nsecond\n"
    );
    let lines = parse_srt(&normalized).unwrap();
    assert_eq!(lines.len(), 2);
    assert_eq!(lines[1], SubtitleLine { start: 3000, end: 4500, text: "second".to_string() });
}

#[test]
fn several_spans_and_text_lines_are_joined_by_spaces() {
    let raw = "1\r\n00:00:01,000 --> 00:00:02,000\r\n<u>one</u> and\r\nthen <u>two</u>\r\n\r\n";
    assert_eq!(convert(raw), "1\n00:00:01,000 --> 00:00:02,000\none two\n");
}

#[test]
fn block_of_fewer_than_three_lines_is_dropped() {
    assert_eq!(convert("1\n<u>00:00:01,000 --> 00:00:02,000</u>"), "");
    assert_eq!(convert(""), "");
    assert_eq!(convert("\n\n\n\n"), "");
}

#[test]
fn span_ends_at_the_nearest_closing_tag() {
    assert_eq!(strings(spans(&chars("<u>a</u>b</u>"))), vec!["a"]);
    assert_eq!(strings(spans(&chars("<u><u>a</u>"))), vec!["<u>a"]);
    assert_eq!(strings(spans(&chars("x<u></u>y"))), vec![""]);
    assert_eq!(strings(spans(&chars("<u>never closed"))), Vec::<String>::new());
    assert_eq!(strings(spans(&chars("</u><u>z</u>"))), vec!["z"]);
}

#[test]
fn spans_agree_with_the_pattern_they_stand_for() {
    let pattern = regex::Regex::new(r"<u>(.*?)</u>").unwrap();
    for text in [
        "a <u>b</u> c <u>d e</u>",
        "<u><u>x</u></u>",
        "<u>open <u>again</u> and </u> <u>",
        "no tags",
        "<u></u><u>\r</u>",
        "<<u>>u</u>/u>",
    ] {
        let expected: Vec<String> =
            pattern.captures_iter(text).map(|c| c[1].to_string()).collect();
        assert_eq!(strings(spans(&chars(text))), expected, "{text:?}");
    }
}

#[test]
fn blocks_agree_with_the_pattern_they_stand_for() {
    let pattern = regex::Regex::new(r"\r?\n\r?\n").unwrap();
    for text in [
        "a\n\nb",
        "a\r\n\r\nb\n\r\nc\r\n\nd",
        "a\n\n\nb",
        "\n\n",
        "a\r\r\n\nb",
        "a\n\r\n\r\nb",
        "no separator\n",
        "",
        "x\n\n",
    ] {
        let expected: Vec<String> = pattern.split(text).map(|p| p.to_string()).collect();
        assert_eq!(strings(split_blocks(&chars(text))), expected, "{text:?}");
    }
}

#[test]
fn track_with_a_malformed_timestamp_hands_out_no_line() {
    let track = "1\n00:00:01,000 --> 00:00:02,000\nfine\n\n2\n1:2:3 --> 00:00:04,000\nbroken\n";
    assert_eq!(parse_srt(track), Err(CaptionError::MalformedTimestamp));
    let track = "1\n00:00:01,000 --> 00:00:02\nbroken end\n";
    assert_eq!(parse_srt(track), Err(CaptionError::MalformedTimestamp));
}

#[test]
fn block_without_a_time_range_is_passed_over() {
    let track = "just one line\n\n1\nno arrow here\ntext\n\n2\n00:00:01,000 --> 00:00:02,000\nkept\nand more\n";
    assert_eq!(
        parse_srt(track),
        Ok(vec![SubtitleLine { start: 1000, end: 2000, text: "kept and more".to_string() }])
    );
    let track = "1\n00:00:01,000 --> 00:00:02,000 --> 00:00:03,000\ntwo arrows\n";
    assert_eq!(parse_srt(track), Ok(vec![]));
}

#[test]
fn line_without_text_has_empty_text() {
    assert_eq!(
        parse_srt("1\n00:00:00,000 --> 00:00:00,250"),
        Ok(vec![SubtitleLine { start: 0, end: 250, text: String::new() }])
    );
}
