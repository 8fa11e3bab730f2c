//! Where a run takes its material from: the sections, the accounts of
//! each section, and the topic line of a summary.

use vstd::prelude::*;
use rand::seq::IndexedRandom;
use crate::text::{
    chars_of, has_prefix, join, join_text, lines, lines_of, matches_at, same_text, string_of,
    string_of_range, texts, trim_range, trimmed,
};

verus! {

pub const SECTION_CRYPTO: &'static str = "crypto";

pub const SECTION_AI: &'static str = "ai";

pub const SECTION_FUNNY: &'static str = "funny";

/// What a line must begin with to name the topic.
pub const TOPIC_MARKER: &'static str = "Topic:";

/// The topic of a summary that names none.
pub const NO_TOPIC: &'static str = "NoTopicFound";

/// The text of each name.
pub open spec fn names(pool: Seq<&'static str>) -> Seq<Seq<char>> {
    Seq::new(pool.len(), |i: int| pool[i]@)
}

/// The sections, in their fixed order.
pub open spec fn section_names() -> Seq<Seq<char>> {
    seq![SECTION_CRYPTO@, SECTION_AI@, SECTION_FUNNY@]
}

/// The accounts of a section, or nothing for a name that is no section.
pub open spec fn pool_of(section: Seq<char>) -> Option<Seq<Seq<char>>> {
    if section == SECTION_CRYPTO@ {
        Some(seq!["5925542"@, "40134343"@])
    } else if section == SECTION_AI@ {
        Some(
            seq![
                "1005182149"@,
                "427089628"@,
                "1605"@,
                "1173552893003255808"@,
                "1326180756310331399"@,
            ],
        )
    } else if section == SECTION_FUNNY@ {
        Some(seq!["16298441"@])
    } else {
        None
    }
}

/// `user_id` is an account of the section `section`.
pub open spec fn is_source(section: Seq<char>, user_id: Seq<char>) -> bool {
    section_names().contains(section) && pool_of(section) is Some && pool_of(section)->0.contains(
        user_id,
    )
}

/// The sections, in their fixed order.
pub fn sections() -> (pool: Vec<&'static str>)
    ensures
        names(pool@) == section_names(),
{
    let mut pool: Vec<&'static str> = Vec::new();
    pool.push(SECTION_CRYPTO);
    pool.push(SECTION_AI);
    pool.push(SECTION_FUNNY);
    assert(names(pool@) =~= section_names());
    pool
}

/// The accounts of a section.
pub fn user_ids(section: &str) -> (r: Option<Vec<&'static str>>)
    ensures
        match r {
            Some(pool) => pool_of(section@) == Some(names(pool@)) && pool.len() > 0,
            None => pool_of(section@) is None,
        },
{
    let mut pool: Vec<&'static str> = Vec::new();
    if same_text(section, SECTION_CRYPTO) {
        pool.push("5925542");
        pool.push("40134343");
        assert(names(pool@) =~= pool_of(section@)->0);
        Some(pool)
    } else if same_text(section, SECTION_AI) {
        pool.push("1005182149");
        pool.push("427089628");
        pool.push("1605");
        pool.push("1173552893003255808");
        pool.push("1326180756310331399");
        assert(names(pool@) =~= pool_of(section@)->0);
        Some(pool)
    } else if same_text(section, SECTION_FUNNY) {
        pool.push("16298441");
        assert(names(pool@) =~= pool_of(section@)->0);
        Some(pool)
    } else {
        None
    }
}

/// `choose` of `rand::seq::IndexedRandom` on a slice, drawing from the
/// thread's generator `rand::rng()`. Trusted: an empty pool gives nothing,
/// and any other pool gives one of its own members. Which member is left
/// open.
#[verifier::external_body]
fn pick_one(pool: &Vec<&'static str>) -> (r: Option<&'static str>)
    ensures
        pool.len() == 0 ==> r is None,
        pool.len() > 0 ==> r is Some && names(pool@).contains(r->0@),
{
    pool.as_slice().choose(&mut rand::rng()).copied()
}

/// Picks a section at random and an account of that section at random.
/// Whatever is drawn, the account belongs to the section.
pub fn get_random_user_id() -> (r: Option<(&'static str, &'static str)>)
    ensures
        match r {
            Some(source) => is_source(source.0@, source.1@),
            None => false,
        },
{
    let all = sections();
    match pick_one(&all) {
        None => None,
        Some(section) => {
            assert(section_names() =~= seq![SECTION_CRYPTO@, SECTION_AI@, SECTION_FUNNY@]);
            let ghost i = choose|i: int|
                0 <= i < section_names().len() && section_names()[i] == section@;
            assert(pool_of(section@) is Some) by {
                assert(i == 0 || i == 1 || i == 2);
            }
            match user_ids(section) {
                None => None,
                Some(pool) => match pick_one(&pool) {
                    None => None,
                    Some(user_id) => Some((section, user_id)),
                },
            }
        },
    }
}

/// The topic that the lines name: what follows the marker in the first
/// line that begins with it, without surrounding whitespace; `NoTopicFound`
/// where no line begins with it.
pub open spec fn topic_in(lines: Seq<Seq<char>>) -> Seq<char>
    decreases lines.len(),
{
    if lines.len() == 0 {
        NO_TOPIC@
    } else if has_prefix(lines[0], TOPIC_MARKER@) {
        trimmed(lines[0].skip(TOPIC_MARKER@.len() as int))
    } else {
        topic_in(lines.skip(1))
    }
}

/// The topic that a summary names.
pub open spec fn topic_of(summary: Seq<char>) -> Seq<char> {
    topic_in(lines_of(summary))
}

/// Reads the topic out of a summary. A summary without a topic line is no
/// failure: its topic is `NoTopicFound`.
pub fn extract_topic(summary: &str) -> (topic: String)
    ensures
        topic@ == topic_of(summary@),
{
    let marker = chars_of(TOPIC_MARKER);
    let all = lines(&chars_of(summary));
    assert(texts(all@).skip(0) =~= texts(all@));
    let mut k: usize = 0;
    while k < all.len()
        invariant
            k <= all.len(),
            marker@ == TOPIC_MARKER@,
            texts(all@) == lines_of(summary@),
            topic_of(summary@) == topic_in(texts(all@).skip(k as int)),
        decreases all.len() - k,
    {
        let ghost rest = texts(all@).skip(k as int);
        assert(rest[0] == all@[k as int]@);
        assert(rest.skip(1) =~= texts(all@).skip(k + 1));
        let line = &all[k];
        if matches_at(line, &marker, 0) {
            let bounds = trim_range(line, marker.len(), line.len());
            assert(line@.subrange(marker.len() as int, line.len() as int) =~= line@.skip(
                marker.len() as int,
            ));
            return string_of_range(line, bounds.0, bounds.1);
        }
        k += 1;
    }
    NO_TOPIC.to_owned()
}

/// The texts that are there, in order.
pub open spec fn present(items: Seq<Option<Seq<char>>>) -> Seq<Seq<char>>
    decreases items.len(),
{
    if items.len() == 0 {
        seq![]
    } else {
        match items.last() {
            Some(text) => present(items.drop_last()).push(text),
            None => present(items.drop_last()),
        }
    }
}

/// The view of each item.
pub open spec fn item_texts(items: Seq<Option<String>>) -> Seq<Option<Seq<char>>> {
    Seq::new(
        items.len(),
        |i: int|
            match items[i] {
                Some(text) => Some(text@),
                None => None,
            },
    )
}

/// The recent items of an account as one text: those that have a text,
/// in order, one per line.
pub fn join_items(items: &Vec<Option<String>>) -> (joined: String)
    ensures
        joined@ == join_text(present(item_texts(items@)), seq!['\n']),
{
    let mut kept: Vec<Vec<char>> = Vec::new();
    let mut k: usize = 0;
    while k < items.len()
        invariant
            k <= items.len(),
            texts(kept@) == present(item_texts(items@).take(k as int)),
        decreases items.len() - k,
    {
        let ghost all = item_texts(items@);
        assert(all.take(k + 1).drop_last() =~= all.take(k as int));
        assert(all.take(k + 1).last() == all[k as int]);
        match &items[k] {
            Some(text) => {
                let ghost before = texts(kept@);
                kept.push(chars_of(text.as_str()));
                assert(texts(kept@) =~= before.push(text@));
            },
            None => {},
        }
        k += 1;
    }
    assert(item_texts(items@).take(items.len() as int) =~= item_texts(items@));
    assert(texts(kept@).skip(0) =~= texts(kept@));
    let mut newline: Vec<char> = Vec::new();
    newline.push('\n');
    assert(newline@ =~= seq!['\n']);
    string_of(&join(&kept, 0, &newline))
}

} // verus!
