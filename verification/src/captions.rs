//! Caption tracks: reading time-coded blocks, keeping the emphasized
//! spans of a raw transcript, and turning a track into timed lines.
//!
//! A track is text. Blocks are separated by blank lines; in a block the
//! first line is an ordinal, the second a time range
//! `HH:MM:SS,mmm --> HH:MM:SS,mmm`, and the rest is the caption text.
//! Times are held in whole milliseconds.

use vstd::prelude::*;
use crate::error::CaptionError;
use crate::text::{
    all_digits, chars_of, copy_range, decimal_text, decimal_value, extend, format_decimal, join,
    join_text, lines, lines_of, matches_at, occurs_at, parse_decimal, split, split_text,
    string_of, texts, trim_range, trimmed,
};

verus! {

/// One timed line of a caption track.
#[derive(Debug, Clone, PartialEq, Eq)]
pub struct SubtitleLine {
    /// When the line appears, in milliseconds.
    pub start: u64,
    /// When the line goes, in milliseconds.
    pub end: u64,
    /// What the line says.
    pub text: String,
}

/// A timed line as a mathematical value.
pub struct TimedLine {
    pub start: nat,
    pub end: nat,
    pub text: Seq<char>,
}

impl View for SubtitleLine {
    type V = TimedLine;

    open spec fn view(&self) -> TimedLine {
        TimedLine { start: self.start as nat, end: self.end as nat, text: self.text@ }
    }
}

/// The view of each line.
pub open spec fn timed_lines(lines: Seq<SubtitleLine>) -> Seq<TimedLine> {
    Seq::new(lines.len(), |i: int| lines[i]@)
}

/// The milliseconds that `HH:MM:SS,mmm` stands for, surrounding whitespace
/// aside: the text must fall into exactly two parts at commas, the first of
/// them into exactly three at colons, and each of the four must be a run
/// of digits. Anything else is malformed and has no value.
pub open spec fn timestamp_millis(s: Seq<char>) -> Option<nat> {
    let parts = split_text(trimmed(s), seq![',']);
    if parts.len() != 2 {
        None
    } else {
        let hms = split_text(parts[0], seq![':']);
        if hms.len() != 3 {
            None
        } else if !(all_digits(hms[0]) && all_digits(hms[1]) && all_digits(hms[2]) && all_digits(
            parts[1],
        )) {
            None
        } else {
            Some(
                decimal_value(hms[0]) * 3_600_000 + decimal_value(hms[1]) * 60_000 + decimal_value(
                    hms[2],
                ) * 1000 + decimal_value(parts[1]),
            )
        }
    }
}

/// `s` is a timestamp whose value a `u64` can hold.
pub open spec fn readable_timestamp(s: Seq<char>) -> bool {
    timestamp_millis(s) is Some && timestamp_millis(s)->0 <= u64::MAX
}

fn one_char(c: char) -> (v: Vec<char>)
    ensures
        v@ == seq![c],
{
    let mut v: Vec<char> = Vec::new();
    v.push(c);
    assert(v@ =~= seq![c]);
    v
}

/// Reads the timestamp written in `v`.
pub fn timestamp_of(v: &Vec<char>) -> (r: Result<u64, CaptionError>)
    ensures
        r is Ok <==> readable_timestamp(v@),
        r is Ok ==> timestamp_millis(v@) == Some(r->Ok_0 as nat),
        r is Err ==> r->Err_0 == CaptionError::MalformedTimestamp,
{
    let bounds = trim_range(v, 0, v.len());
    assert(v@.subrange(0, v.len() as int) =~= v@);
    let t = copy_range(v, bounds.0, bounds.1);
    let parts = split(&t, &one_char(','));
    if parts.len() != 2 {
        return Err(CaptionError::MalformedTimestamp);
    }
    assert(texts(parts@)[0] == parts@[0]@ && texts(parts@)[1] == parts@[1]@);
    let hms = split(&parts[0], &one_char(':'));
    if hms.len() != 3 {
        return Err(CaptionError::MalformedTimestamp);
    }
    assert(texts(hms@)[0] == hms@[0]@ && texts(hms@)[1] == hms@[1]@ && texts(hms@)[2]
        == hms@[2]@);
    let hours = parse_decimal(&hms[0]);
    let minutes = parse_decimal(&hms[1]);
    let seconds = parse_decimal(&hms[2]);
    let millis = parse_decimal(&parts[1]);
    match (hours, minutes, seconds, millis) {
        (Some(h), Some(m), Some(s), Some(ms)) => {
            let total = match (h.checked_mul(3_600_000), m.checked_mul(60_000), s.checked_mul(
                1000,
            )) {
                (Some(a), Some(b), Some(c)) => match a.checked_add(b) {
                    Some(ab) => match ab.checked_add(c) {
                        Some(abc) => abc.checked_add(ms),
                        None => None,
                    },
                    None => None,
                },
                _ => None,
            };
            match total {
                Some(n) => Ok(n),
                None => Err(CaptionError::MalformedTimestamp),
            }
        },
        _ => Err(CaptionError::MalformedTimestamp),
    }
}

/// Parses an `HH:MM:SS,mmm` timestamp into milliseconds.
///
/// Fails with `MalformedTimestamp` exactly when the text is not such a
/// timestamp, or stands for more milliseconds than a `u64` holds.
pub fn parse_srt_timestamp(timestamp: &str) -> (r: Result<u64, CaptionError>)
    ensures
        r is Ok <==> readable_timestamp(timestamp@),
        r is Ok ==> timestamp_millis(timestamp@) == Some(r->Ok_0 as nat),
        r is Err ==> r->Err_0 == CaptionError::MalformedTimestamp,
{
    timestamp_of(&chars_of(timestamp))
}

/// The length of the blank-line separator that starts at index `i` of `s`,
/// or 0 where none starts: two line feeds, each of which may have a
/// carriage return directly before it.
pub open spec fn blank_line_len(s: Seq<char>, i: int) -> int {
    let a: int = if 0 <= i < s.len() && s[i] == '\r' {
        1
    } else {
        0
    };
    if 0 <= i && i + a < s.len() && s[i + a] == '\n' {
        let j = i + a + 1;
        let b: int = if j < s.len() && s[j] == '\r' {
            1
        } else {
            0
        };
        if j + b < s.len() && s[j + b] == '\n' {
            a + b + 2
        } else {
            0
        }
    } else {
        0
    }
}

/// The blocks of `s`, reading from index `i` with the current block begun
/// at `start`.
pub open spec fn blocks_scan(s: Seq<char>, start: int, i: int) -> Seq<Seq<char>>
    decreases s.len() - i,
{
    if i < 0 || i >= s.len() {
        seq![s.subrange(start, s.len() as int)]
    } else if blank_line_len(s, i) > 0 {
        seq![s.subrange(start, i)] + blocks_scan(
            s,
            i + blank_line_len(s, i),
            i + blank_line_len(s, i),
        )
    } else {
        blocks_scan(s, start, i + 1)
    }
}

/// `s` cut at its blank-line separators, leftmost first.
pub open spec fn blocks_of(s: Seq<char>) -> Seq<Seq<char>> {
    blocks_scan(s, 0, 0)
}

fn blank_line_at(v: &Vec<char>, i: usize) -> (n: usize)
    requires
        i < v.len(),
    ensures
        n == blank_line_len(v@, i as int),
        n <= 4,
        i + n <= v.len(),
{
    let a: usize = if v[i] == '\r' {
        1
    } else {
        0
    };
    if a < v.len() - i && v[i + a] == '\n' {
        let j: usize = i + a + 1;
        let b: usize = if j < v.len() && v[j] == '\r' {
            1
        } else {
            0
        };
        if j < v.len() && b < v.len() - j && v[j + b] == '\n' {
            a + b + 2
        } else {
            0
        }
    } else {
        0
    }
}

/// Cuts a track into its blocks.
pub fn split_blocks(v: &Vec<char>) -> (out: Vec<Vec<char>>)
    ensures
        texts(out@) == blocks_of(v@),
{
    let mut out: Vec<Vec<char>> = Vec::new();
    let mut start: usize = 0;
    let mut i: usize = 0;
    while i < v.len()
        invariant
            start <= i <= v.len(),
            blocks_of(v@) == texts(out@) + blocks_scan(v@, start as int, i as int),
        decreases v.len() - i,
    {
        let n = blank_line_at(v, i);
        if n > 0 {
            let piece = copy_range(v, start, i);
            let ghost before = texts(out@);
            out.push(piece);
            assert(texts(out@) =~= before + seq![v@.subrange(start as int, i as int)]);
            i += n;
            start = i;
        } else {
            i += 1;
        }
    }
    let piece = copy_range(v, start, v.len());
    let ghost before = texts(out@);
    out.push(piece);
    assert(texts(out@) =~= before + seq![v@.subrange(start as int, v.len() as int)]);
    out
}

/// The tag that opens an emphasized span.
pub open spec fn open_tag() -> Seq<char> {
    seq!['<', 'u', '>']
}

/// The tag that closes an emphasized span.
pub open spec fn close_tag() -> Seq<char> {
    seq!['<', '/', 'u', '>']
}

/// The emphasized spans of `s`, reading from index `i`. `open` is the index
/// just behind an opening tag that is not closed yet, or negative.
pub open spec fn spans_scan(s: Seq<char>, open: int, i: int) -> Seq<Seq<char>>
    decreases s.len() - i,
{
    if i < 0 || i >= s.len() {
        seq![]
    } else if open < 0 {
        if occurs_at(s, open_tag(), i) {
            spans_scan(s, i + 3, i + 3)
        } else {
            spans_scan(s, -1, i + 1)
        }
    } else {
        if occurs_at(s, close_tag(), i) {
            seq![s.subrange(open, i)] + spans_scan(s, -1, i + 4)
        } else {
            spans_scan(s, open, i + 1)
        }
    }
}

/// What stands between each opening tag and the nearest closing tag behind
/// it, in order and without the tags. An opening tag that is never closed
/// opens nothing.
pub open spec fn emphasized_spans(s: Seq<char>) -> Seq<Seq<char>> {
    spans_scan(s, -1, 0)
}

fn open_tag_chars() -> (v: Vec<char>)
    ensures
        v@ == open_tag(),
{
    let mut v: Vec<char> = Vec::new();
    v.push('<');
    v.push('u');
    v.push('>');
    assert(v@ =~= open_tag());
    v
}

fn close_tag_chars() -> (v: Vec<char>)
    ensures
        v@ == close_tag(),
{
    let mut v: Vec<char> = Vec::new();
    v.push('<');
    v.push('/');
    v.push('u');
    v.push('>');
    assert(v@ =~= close_tag());
    v
}

/// Collects the emphasized spans of `v`.
pub fn spans(v: &Vec<char>) -> (out: Vec<Vec<char>>)
    ensures
        texts(out@) == emphasized_spans(v@),
{
    let opening = open_tag_chars();
    let closing = close_tag_chars();
    let mut out: Vec<Vec<char>> = Vec::new();
    let mut open: Option<usize> = None;
    let mut i: usize = 0;
    while i < v.len()
        invariant
            i <= v.len(),
            opening@ == open_tag(),
            closing@ == close_tag(),
            open is Some ==> open->0 <= i,
            emphasized_spans(v@) == texts(out@) + spans_scan(
                v@,
                if open is Some {
                    open->0 as int
                } else {
                    -1
                },
                i as int,
            ),
        decreases v.len() - i,
    {
        match open {
            None => {
                if matches_at(v, &opening, i) {
                    i += 3;
                    open = Some(i);
                } else {
                    i += 1;
                }
            },
            Some(from) => {
                if matches_at(v, &closing, i) {
                    let piece = copy_range(v, from, i);
                    let ghost before = texts(out@);
                    out.push(piece);
                    assert(texts(out@) =~= before + seq![v@.subrange(from as int, i as int)]);
                    i += 4;
                    open = None;
                } else {
                    i += 1;
                }
            },
        }
    }
    assert(texts(out@) + Seq::<Seq<char>>::empty() =~= texts(out@));
    out
}

/// What a raw block keeps after normalization: its time range line and its
/// emphasized spans joined by spaces. A block of fewer than three lines, or
/// without an emphasized span, keeps nothing.
pub open spec fn normalized_entry(block: Seq<char>) -> Option<(Seq<char>, Seq<char>)> {
    let ls = lines_of(block);
    if trimmed(block).len() == 0 || ls.len() < 3 {
        None
    } else {
        let found = emphasized_spans(join_text(ls.skip(2), seq![' ']));
        if found.len() == 0 {
            None
        } else {
            Some((ls[1], join_text(found, seq![' '])))
        }
    }
}

/// The entries that the blocks keep, in the order of the blocks.
pub open spec fn normalized_entries(blocks: Seq<Seq<char>>) -> Seq<(Seq<char>, Seq<char>)>
    decreases blocks.len(),
{
    if blocks.len() == 0 {
        seq![]
    } else {
        let rest = normalized_entries(blocks.drop_last());
        match normalized_entry(blocks.last()) {
            Some(entry) => rest.push(entry),
            None => rest,
        }
    }
}

/// An entry as it is written: ordinal, time range and text, one per line.
pub open spec fn rendered_entry(ordinal: nat, entry: (Seq<char>, Seq<char>)) -> Seq<char> {
    decimal_text(ordinal) + seq!['\n'] + entry.0 + seq!['\n'] + entry.1 + seq!['\n']
}

/// The entries as they are written, numbered from one.
pub open spec fn rendered_entries(entries: Seq<(Seq<char>, Seq<char>)>) -> Seq<Seq<char>> {
    Seq::new(entries.len(), |i: int| rendered_entry((i + 1) as nat, entries[i]))
}

/// The normalized track of a raw transcript: the kept entries, renumbered,
/// with an empty line between neighbours.
pub open spec fn normalized_track(s: Seq<char>) -> Seq<char> {
    join_text(rendered_entries(normalized_entries(blocks_of(s))), seq!['\n'])
}

fn normalize_block(block: &Vec<char>) -> (r: Option<(Vec<char>, Vec<char>)>)
    ensures
        match r {
            Some(entry) => normalized_entry(block@) == Some((entry.0@, entry.1@)),
            None => normalized_entry(block@) is None,
        },
{
    let bounds = trim_range(block, 0, block.len());
    assert(block@.subrange(0, block.len() as int) =~= block@);
    if bounds.0 == bounds.1 {
        return None;
    }
    let ls = lines(block);
    if ls.len() < 3 {
        return None;
    }
    assert(texts(ls@)[1] == ls@[1]@);
    let space = one_char(' ');
    let text = join(&ls, 2, &space);
    let found = spans(&text);
    if found.len() == 0 {
        return None;
    }
    assert(texts(found@).skip(0) =~= texts(found@));
    let kept = join(&found, 0, &space);
    Some((copy_whole(&ls[1]), kept))
}

fn copy_whole(v: &Vec<char>) -> (w: Vec<char>)
    ensures
        w@ == v@,
{
    let w = copy_range(v, 0, v.len());
    assert(v@.subrange(0, v.len() as int) =~= v@);
    w
}

fn render_entry(ordinal: u64, range: &Vec<char>, text: &Vec<char>) -> (out: Vec<char>)
    ensures
        out@ == rendered_entry(ordinal as nat, (range@, text@)),
{
    let mut out = format_decimal(ordinal);
    out.push('\n');
    extend(&mut out, range);
    out.push('\n');
    extend(&mut out, text);
    out.push('\n');
    assert(out@ =~= rendered_entry(ordinal as nat, (range@, text@)));
    out
}

/// Normalizes the track written in `v`.
pub fn normalize(v: &Vec<char>) -> (out: Vec<char>)
    ensures
        out@ == normalized_track(v@),
{
    let blocks = split_blocks(v);
    let mut rendered: Vec<Vec<char>> = Vec::new();
    let mut k: usize = 0;
    while k < blocks.len()
        invariant
            k <= blocks.len(),
            rendered.len() <= k,
            texts(rendered@) == rendered_entries(normalized_entries(texts(blocks@).take(k as int))),
        decreases blocks.len() - k,
    {
        let ghost done = texts(blocks@).take(k as int);
        let ghost next = texts(blocks@).take(k + 1);
        assert(next.drop_last() =~= done);
        assert(next.last() == blocks@[k as int]@);
        match normalize_block(&blocks[k]) {
            Some(entry) => {
                let ordinal: u64 = (rendered.len() + 1) as u64;
                let ghost before = texts(rendered@);
                let ghost kept = normalized_entries(done);
                assert(before.len() == kept.len());
                let line = render_entry(ordinal, &entry.0, &entry.1);
                rendered.push(line);
                let ghost grown = kept.push((entry.0@, entry.1@));
                assert forall|i: int| 0 <= i < grown.len() implies texts(rendered@)[i]
                    == rendered_entries(grown)[i] by {
                    if i < kept.len() {
                        assert(texts(rendered@)[i] == before[i]);
                        assert(grown[i] == kept[i]);
                    }
                }
                assert(texts(rendered@) =~= rendered_entries(grown));
            },
            None => {},
        }
        k += 1;
    }
    assert(texts(blocks@).take(blocks.len() as int) =~= texts(blocks@));
    assert(texts(rendered@).skip(0) =~= texts(rendered@));
    join(&rendered, 0, &one_char('\n'))
}

/// Keeps of a raw time-coded transcript only the emphasized spans: one
/// renumbered entry for each block that has any, under that block's own
/// time range.
pub fn convert(content: &str) -> (out: String)
    ensures
        out@ == normalized_track(content@),
{
    string_of(&normalize(&chars_of(content)))
}

/// What a block of a track reads as.
pub enum BlockReading {
    /// The block has no time range line and is passed over.
    Skipped,
    /// The block is a timed line.
    Line(TimedLine),
    /// The block has a time range line, a side of which is no readable
    /// timestamp.
    Malformed,
}

/// The arrow between the two sides of a time range.
pub open spec fn arrow() -> Seq<char> {
    seq!['-', '-', '>']
}

/// How one block reads: its second line is the time range, with exactly
/// one arrow; what follows it is the text, the lines joined by spaces.
pub open spec fn read_block(block: Seq<char>) -> BlockReading {
    let ls = lines_of(block);
    if ls.len() < 2 {
        BlockReading::Skipped
    } else {
        let sides = split_text(ls[1], arrow());
        if sides.len() != 2 {
            BlockReading::Skipped
        } else if !readable_timestamp(sides[0]) || !readable_timestamp(sides[1]) {
            BlockReading::Malformed
        } else {
            BlockReading::Line(
                TimedLine {
                    start: timestamp_millis(sides[0])->0,
                    end: timestamp_millis(sides[1])->0,
                    text: join_text(ls.skip(2), seq![' ']),
                },
            )
        }
    }
}

/// The timed lines of the blocks in order, or nothing where a block is
/// malformed.
pub open spec fn read_blocks(blocks: Seq<Seq<char>>) -> Option<Seq<TimedLine>>
    decreases blocks.len(),
{
    if blocks.len() == 0 {
        Some(seq![])
    } else {
        match read_blocks(blocks.drop_last()) {
            None => None,
            Some(rest) => match read_block(blocks.last()) {
                BlockReading::Skipped => Some(rest),
                BlockReading::Line(line) => Some(rest.push(line)),
                BlockReading::Malformed => None,
            },
        }
    }
}

/// The timed lines of a track.
pub open spec fn track_lines(s: Seq<char>) -> Option<Seq<TimedLine>> {
    read_blocks(blocks_of(s))
}

fn arrow_chars() -> (v: Vec<char>)
    ensures
        v@ == arrow(),
{
    let mut v: Vec<char> = Vec::new();
    v.push('-');
    v.push('-');
    v.push('>');
    assert(v@ =~= arrow());
    v
}

/// What `parse_block` found.
enum Reading {
    Skipped,
    Line(SubtitleLine),
    Malformed,
}

fn parse_block(block: &Vec<char>) -> (r: Reading)
    ensures
        r is Skipped <==> read_block(block@) is Skipped,
        r is Malformed <==> read_block(block@) is Malformed,
        r is Line ==> read_block(block@) == BlockReading::Line(r->Line_0@),
{
    let ls = lines(block);
    if ls.len() < 2 {
        return Reading::Skipped;
    }
    assert(texts(ls@)[1] == ls@[1]@);
    let sides = split(&ls[1], &arrow_chars());
    if sides.len() != 2 {
        return Reading::Skipped;
    }
    assert(texts(sides@)[0] == sides@[0]@ && texts(sides@)[1] == sides@[1]@);
    match (timestamp_of(&sides[0]), timestamp_of(&sides[1])) {
        (Ok(start), Ok(end)) => {
            let text = string_of(&join(&ls, 2, &one_char(' ')));
            Reading::Line(SubtitleLine { start, end, text })
        },
        _ => Reading::Malformed,
    }
}

/// Reads the timed lines of the track written in `v`.
pub fn parse_track(v: &Vec<char>) -> (r: Result<Vec<SubtitleLine>, CaptionError>)
    ensures
        r is Ok <==> track_lines(v@) is Some,
        r is Ok ==> timed_lines(r->Ok_0@) == track_lines(v@)->0,
        r is Err ==> r->Err_0 == CaptionError::MalformedTimestamp,
{
    let blocks = split_blocks(v);
    let mut out: Vec<SubtitleLine> = Vec::new();
    let mut k: usize = 0;
    while k < blocks.len()
        invariant
            k <= blocks.len(),
            texts(blocks@) == blocks_of(v@),
            read_blocks(texts(blocks@).take(k as int)) == Some(timed_lines(out@)),
        decreases blocks.len() - k,
    {
        let ghost done = texts(blocks@).take(k as int);
        let ghost next = texts(blocks@).take(k + 1);
        assert(next.drop_last() =~= done);
        assert(next.last() == blocks@[k as int]@);
        match parse_block(&blocks[k]) {
            Reading::Skipped => {},
            Reading::Line(line) => {
                let ghost before = timed_lines(out@);
                out.push(line);
                assert(timed_lines(out@) =~= before.push(line@));
            },
            Reading::Malformed => {
                proof {
                    assert(texts(blocks@)[k as int] == blocks@[k as int]@);
                    lemma_malformed_block_spoils_track(texts(blocks@), k as int);
                }
                return Err(CaptionError::MalformedTimestamp);
            },
        }
        k += 1;
    }
    assert(texts(blocks@).take(blocks.len() as int) =~= texts(blocks@));
    Ok(out)
}

/// Parses a caption track into its timed lines.
///
/// Blocks without a time range line are passed over. Fails with
/// `MalformedTimestamp` exactly when some block has a time range a side of
/// which is no readable timestamp; no line is handed out then.
pub fn parse_srt(content: &str) -> (r: Result<Vec<SubtitleLine>, CaptionError>)
    ensures
        r is Ok <==> track_lines(content@) is Some,
        r is Ok ==> timed_lines(r->Ok_0@) == track_lines(content@)->0,
        r is Err ==> r->Err_0 == CaptionError::MalformedTimestamp,
{
    parse_track(&chars_of(content))
}

/// One malformed block anywhere in a track leaves the track without lines.
pub proof fn lemma_malformed_block_spoils_track(blocks: Seq<Seq<char>>, k: int)
    requires
        0 <= k < blocks.len(),
        read_block(blocks[k]) is Malformed,
    ensures
        read_blocks(blocks) is None,
    decreases blocks.len(),
{
    if k < blocks.len() - 1 {
        lemma_malformed_block_spoils_track(blocks.drop_last(), k);
    }
}

/// A block whose text holds no emphasized span leaves no entry in the
/// normalized track.
pub proof fn lemma_unemphasized_block_is_dropped(block: Seq<char>)
    requires
        emphasized_spans(join_text(lines_of(block).skip(2), seq![' '])).len() == 0,
    ensures
        normalized_entry(block) is None,
        normalized_entries(seq![block]) == Seq::<(Seq<char>, Seq<char>)>::empty(),
{
    assert(seq![block].drop_last() =~= Seq::<Seq<char>>::empty());
    assert(normalized_entries(seq![block].drop_last()) =~= Seq::<(Seq<char>, Seq<char>)>::empty());
}

} // verus!
