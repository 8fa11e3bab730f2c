//! The images of a run: which words of a caption track get an image,
//! where each image is kept and for how long it is shown, and the
//! manifest that the slideshow is composed from.

use vstd::prelude::*;
use crate::captions::{timed_lines, SubtitleLine, TimedLine};
use crate::error::StageError;
use crate::polling::{PollRun, Run};
use crate::text::{
    chars_of, decimal_text, extend, format_decimal, format_signed, signed_text, string_of,
    texts, trailing_start, without_trailing, words, words_of,
};

verus! {

/// The number of words of a line that get an image.
pub const WORDS_PER_LINE: usize = 1;

/// One image to generate.
#[derive(Debug, Clone, PartialEq, Eq)]
pub struct ImageJob {
    /// The line of the track that the word stands in, counted from zero.
    pub line_index: usize,
    /// The image's place among all images of the run, counted from zero.
    pub image_index: usize,
    /// The word that the image is generated from.
    pub prompt: String,
    /// The name of the file that keeps the image.
    pub file_name: String,
    /// How long the image is shown, in milliseconds.
    pub duration_ms: u64,
}

/// An `ImageJob` as a mathematical value.
pub struct Job {
    pub line_index: nat,
    pub image_index: nat,
    pub prompt: Seq<char>,
    pub file_name: Seq<char>,
    pub duration_ms: nat,
}

impl View for ImageJob {
    type V = Job;

    open spec fn view(&self) -> Job {
        Job {
            line_index: self.line_index as nat,
            image_index: self.image_index as nat,
            prompt: self.prompt@,
            file_name: self.file_name@,
            duration_ms: self.duration_ms as nat,
        }
    }
}

/// The view of each job.
pub open spec fn jobs_of(jobs: Seq<ImageJob>) -> Seq<Job> {
    Seq::new(jobs.len(), |i: int| jobs[i]@)
}

/// `word_<line>_<image>.png`
pub open spec fn image_file_name(line_index: nat, image_index: nat) -> Seq<char> {
    "word_"@ + decimal_text(line_index) + "_"@ + decimal_text(image_index) + ".png"@
}

/// The smaller of the two.
pub open spec fn at_most(n: nat, limit: nat) -> nat {
    if n <= limit {
        n
    } else {
        limit
    }
}

/// The jobs of one line, the first of which is the image numbered
/// `first_image`. A line that does not end after it starts, or has no word,
/// gets none. Otherwise the line's time is shared evenly among all its
/// words, and each of its first `limit` words gets an image for one share.
pub open spec fn line_jobs(line: TimedLine, line_index: nat, first_image: nat, limit: nat) -> Seq<
    Job,
> {
    let found = words_of(line.text);
    if line.end <= line.start || found.len() == 0 {
        seq![]
    } else {
        Seq::new(
            at_most(found.len(), limit),
            |i: int|
                Job {
                    line_index,
                    image_index: (first_image + i) as nat,
                    prompt: found[i],
                    file_name: image_file_name(line_index, (first_image + i) as nat),
                    duration_ms: ((line.end - line.start) / (found.len() as int)) as nat,
                },
        )
    }
}

/// The jobs of a track, line after line, the images numbered through.
pub open spec fn planned_jobs(lines: Seq<TimedLine>, limit: nat) -> Seq<Job>
    decreases lines.len(),
{
    if lines.len() == 0 {
        seq![]
    } else {
        let before = planned_jobs(lines.drop_last(), limit);
        before + line_jobs(lines.last(), (lines.len() - 1) as nat, before.len(), limit)
    }
}

fn file_name_chars(line_index: usize, image_index: usize) -> (v: Vec<char>)
    ensures
        v@ == image_file_name(line_index as nat, image_index as nat),
{
    let mut v = chars_of("word_");
    extend(&mut v, &format_decimal(line_index as u64));
    extend(&mut v, &chars_of("_"));
    extend(&mut v, &format_decimal(image_index as u64));
    extend(&mut v, &chars_of(".png"));
    v
}

/// Plans the images of a track: for each of the first `limit` words of
/// every line that lasts, one job.
pub fn plan_images(subtitles: &Vec<SubtitleLine>, limit: usize) -> (jobs: Vec<ImageJob>)
    ensures
        jobs_of(jobs@) == planned_jobs(timed_lines(subtitles@), limit as nat),
{
    let mut jobs: Vec<ImageJob> = Vec::new();
    let mut k: usize = 0;
    while k < subtitles.len()
        invariant
            k <= subtitles.len(),
            jobs_of(jobs@) == planned_jobs(timed_lines(subtitles@).take(k as int), limit as nat),
        decreases subtitles.len() - k,
    {
        let ghost all = timed_lines(subtitles@);
        let ghost before = planned_jobs(all.take(k as int), limit as nat);
        assert(all.take(k + 1).drop_last() =~= all.take(k as int));
        assert(all.take(k + 1).last() == subtitles@[k as int]@);
        let line = &subtitles[k];
        let ghost due = line_jobs(line@, k as nat, before.len(), limit as nat);
        let found = words(&chars_of(line.text.as_str()));
        if line.end > line.start && found.len() > 0 {
            let share: u64 = (line.end - line.start) / (found.len() as u64);
            let take: usize = if found.len() <= limit {
                found.len()
            } else {
                limit
            };
            let mut i: usize = 0;
            while i < take
                invariant
                    i <= take <= found.len(),
                    take == at_most(found.len() as nat, limit as nat),
                    k < subtitles.len(),
                    line == &subtitles@[k as int],
                    line.end > line.start,
                    found.len() > 0,
                    texts(found@) == words_of(line@.text),
                    share == (line.end - line.start) / (found.len() as int),
                    due == line_jobs(line@, k as nat, before.len(), limit as nat),
                    jobs_of(jobs@) == before + due.take(i as int),
                decreases take - i,
            {
                let image_index: usize = jobs.len();
                let ghost sofar = jobs_of(jobs@);
                assert(texts(found@)[i as int] == found@[i as int]@);
                let job = ImageJob {
                    line_index: k,
                    image_index,
                    prompt: string_of(&found[i]),
                    file_name: string_of(&file_name_chars(k, image_index)),
                    duration_ms: share,
                };
                assert(jobs_of(jobs@).len() == before.len() + i);
                assert(job@ == due[i as int]);
                jobs.push(job);
                assert(jobs_of(jobs@) =~= sofar.push(due[i as int]));
                assert(due.take(i + 1) =~= due.take(i as int).push(due[i as int]));
                i += 1;
            }
            assert(due.take(take as int) =~= due);
        } else {
            assert(before + due =~= before);
        }
        k += 1;
    }
    assert(timed_lines(subtitles@).take(subtitles.len() as int) =~= timed_lines(subtitles@));
    jobs
}

/// One line of the manifest: a file, and how long it is shown.
#[derive(Debug, Clone, PartialEq, Eq)]
pub struct ManifestEntry {
    pub file: String,
    /// Milliseconds; nothing for the closing entry.
    pub duration_ms: Option<u64>,
}

/// A `ManifestEntry` as a mathematical value.
pub struct Shown {
    pub file: Seq<char>,
    pub duration_ms: Option<nat>,
}

impl View for ManifestEntry {
    type V = Shown;

    open spec fn view(&self) -> Shown {
        Shown {
            file: self.file@,
            duration_ms: match self.duration_ms {
                Some(ms) => Some(ms as nat),
                None => None,
            },
        }
    }
}

/// The view of each entry.
pub open spec fn shown(entries: Seq<ManifestEntry>) -> Seq<Shown> {
    Seq::new(entries.len(), |i: int| entries[i]@)
}

/// The manifest of the jobs: each image with its duration, in order, and
/// then the last image once more without one. No job, no entry.
pub open spec fn manifest_of(jobs: Seq<Job>) -> Seq<Shown> {
    if jobs.len() == 0 {
        seq![]
    } else {
        Seq::new(
            jobs.len(),
            |i: int| Shown { file: jobs[i].file_name, duration_ms: Some(jobs[i].duration_ms) },
        ).push(Shown { file: jobs.last().file_name, duration_ms: None })
    }
}

/// Builds the manifest of the jobs.
pub fn build_manifest(jobs: &Vec<ImageJob>) -> (entries: Vec<ManifestEntry>)
    ensures
        shown(entries@) == manifest_of(jobs_of(jobs@)),
        jobs.len() == 0 ==> entries.len() == 0,
        jobs.len() > 0 ==> entries.len() == jobs.len() + 1,
{
    let mut entries: Vec<ManifestEntry> = Vec::new();
    if jobs.len() == 0 {
        assert(shown(entries@) =~= manifest_of(jobs_of(jobs@)));
        return entries;
    }
    let mut i: usize = 0;
    while i < jobs.len()
        invariant
            i <= jobs.len(),
            entries.len() == i,
            forall|j: int|
                0 <= j < i ==> (#[trigger] entries@[j])@ == (Shown {
                    file: jobs@[j].file_name@,
                    duration_ms: Some(jobs@[j].duration_ms as nat),
                }),
        decreases jobs.len() - i,
    {
        entries.push(
            ManifestEntry { file: jobs[i].file_name.clone(), duration_ms: Some(jobs[i].duration_ms) },
        );
        i += 1;
    }
    let last = &jobs[jobs.len() - 1];
    entries.push(ManifestEntry { file: last.file_name.clone(), duration_ms: None });
    assert(jobs_of(jobs@).last() == jobs@[jobs.len() - 1]@);
    assert(shown(entries@) =~= manifest_of(jobs_of(jobs@)));
    entries
}

/// The three digits of a number below one thousand.
pub open spec fn three_digits(n: nat) -> Seq<char> {
    decimal_text(n / 100) + decimal_text((n / 10) % 10) + decimal_text(n % 10)
}

/// Milliseconds written as seconds: the whole seconds, and where a
/// fraction is left, a point and its digits without zeros at the end.
pub open spec fn seconds_text(ms: nat) -> Seq<char> {
    if ms % 1000 == 0 {
        decimal_text(ms / 1000)
    } else {
        decimal_text(ms / 1000) + "."@ + without_trailing(three_digits(ms % 1000), '0')
    }
}

fn seconds_chars(ms: u64) -> (v: Vec<char>)
    ensures
        v@ == seconds_text(ms as nat),
{
    let mut v = format_decimal(ms / 1000);
    let rest: u64 = ms % 1000;
    if rest != 0 {
        extend(&mut v, &chars_of("."));
        let mut digits = format_decimal(rest / 100);
        extend(&mut digits, &format_decimal((rest / 10) % 10));
        extend(&mut digits, &format_decimal(rest % 10));
        let end = trailing_start(&digits, '0');
        let mut i: usize = 0;
        let ghost whole = v@;
        while i < end
            invariant
                i <= end <= digits.len(),
                v@ == whole + digits@.take(i as int),
            decreases end - i,
        {
            v.push(digits[i]);
            assert(digits@.take(i + 1) =~= digits@.take(i as int).push(digits@[i as int]));
            i += 1;
        }
    }
    v
}

/// An entry as the manifest file writes it: the file in single quotes,
/// and on a line of its own the duration in seconds where it has one.
pub open spec fn entry_text(entry: Shown) -> Seq<char> {
    let file_line = "file '"@ + entry.file + "'\n"@;
    match entry.duration_ms {
        Some(ms) => file_line + "duration "@ + seconds_text(ms) + "\n"@,
        None => file_line,
    }
}

/// The entries as the manifest file writes them, one after another.
pub open spec fn manifest_text(entries: Seq<Shown>) -> Seq<char>
    decreases entries.len(),
{
    if entries.len() == 0 {
        Seq::empty()
    } else {
        manifest_text(entries.drop_last()) + entry_text(entries.last())
    }
}

/// Writes the manifest as the text of the file list that the slideshow is
/// composed from.
pub fn render_manifest(entries: &Vec<ManifestEntry>) -> (text: String)
    ensures
        text@ == manifest_text(shown(entries@)),
{
    let mut v: Vec<char> = Vec::new();
    let mut i: usize = 0;
    while i < entries.len()
        invariant
            i <= entries.len(),
            v@ == manifest_text(shown(entries@).take(i as int)),
        decreases entries.len() - i,
    {
        let ghost all = shown(entries@);
        assert(all.take(i + 1).drop_last() =~= all.take(i as int));
        assert(all.take(i + 1).last() == entries@[i as int]@);
        let ghost before = v@;
        let entry = &entries[i];
        extend(&mut v, &chars_of("file '"));
        extend(&mut v, &chars_of(entry.file.as_str()));
        extend(&mut v, &chars_of("'\n"));
        match entry.duration_ms {
            Some(ms) => {
                extend(&mut v, &chars_of("duration "));
                extend(&mut v, &seconds_chars(ms));
                extend(&mut v, &chars_of("\n"));
            },
            None => {},
        }
        assert(v@ =~= before + entry_text(entry@));
        i += 1;
    }
    assert(shown(entries@).take(entries.len() as int) =~= shown(entries@));
    string_of(&v)
}

/// `./tmp/<run>`
pub open spec fn run_folder(run_id: int) -> Seq<char> {
    "./tmp/"@ + signed_text(run_id)
}

/// The directory that keeps the files of the run `run_id`.
pub fn run_directory(run_id: i64) -> (path: String)
    ensures
        path@ == run_folder(run_id as int),
{
    let mut v = chars_of("./tmp/");
    extend(&mut v, &format_signed(run_id));
    string_of(&v)
}

/// The file `name` in the directory of the run `run_id`.
pub fn run_file(run_id: i64, name: &str) -> (path: String)
    ensures
        path@ == run_folder(run_id as int) + "/"@ + name@,
{
    let mut v = chars_of("./tmp/");
    extend(&mut v, &format_signed(run_id));
    extend(&mut v, &chars_of("/"));
    extend(&mut v, &chars_of(name));
    string_of(&v)
}

/// What the image stage of a run is to do: the images to generate, and
/// the manifest to write once every one of them is there.
#[derive(Debug, Clone)]
pub struct ImagePlan {
    /// The directory that keeps the images and the manifest.
    pub folder: String,
    /// The images to generate, one after another.
    pub jobs: Vec<ImageJob>,
    /// The manifest of those images.
    pub manifest: Vec<ManifestEntry>,
    /// Where the manifest is written.
    pub filelist_path: String,
    /// The text of the manifest.
    pub filelist: String,
}

/// Plans the image stage of the run `run_id` for the lines of its caption
/// track: one image for the first word of every line that lasts, and the
/// manifest of those images.
pub fn create_images_for_subtitles(run_id: i64, subtitles: &Vec<SubtitleLine>) -> (plan: ImagePlan)
    ensures
        plan.folder@ == run_folder(run_id as int),
        jobs_of(plan.jobs@) == planned_jobs(timed_lines(subtitles@), WORDS_PER_LINE as nat),
        shown(plan.manifest@) == manifest_of(jobs_of(plan.jobs@)),
        plan.filelist_path@ == run_folder(run_id as int) + "/"@ + "filelist.txt"@,
        plan.filelist@ == manifest_text(shown(plan.manifest@)),
{
    let jobs = plan_images(subtitles, WORDS_PER_LINE);
    let manifest = build_manifest(&jobs);
    let filelist = render_manifest(&manifest);
    ImagePlan {
        folder: run_directory(run_id),
        jobs,
        manifest,
        filelist_path: run_file(run_id, "filelist.txt"),
        filelist,
    }
}

/// A manifest of images has one entry more than there are images: every
/// image with its duration, in order, and a closing entry that names the
/// last image again and has no duration.
pub proof fn lemma_manifest_shape(jobs: Seq<Job>)
    requires
        jobs.len() > 0,
    ensures
        manifest_of(jobs).len() == jobs.len() + 1,
        forall|i: int|
            0 <= i < jobs.len() ==> (#[trigger] manifest_of(jobs)[i]).file == jobs[i].file_name && (
            manifest_of(jobs)[i]).duration_ms == Some(jobs[i].duration_ms),
        manifest_of(jobs).last().file == jobs.last().file_name,
        manifest_of(jobs).last().duration_ms is None,
{
}

/// No line gets more images than the limit allows.
pub proof fn lemma_plan_is_bounded(lines: Seq<TimedLine>, limit: nat)
    ensures
        planned_jobs(lines, limit).len() <= lines.len() * limit,
    decreases lines.len(),
{
    if lines.len() > 0 {
        lemma_plan_is_bounded(lines.drop_last(), limit);
        let n = lines.len();
        assert((n - 1) * limit + limit == n * limit) by (nonlinear_arith);
    }
}

/// The images of a plan are numbered through from zero.
pub proof fn lemma_images_are_numbered(lines: Seq<TimedLine>, limit: nat, i: int)
    requires
        0 <= i < planned_jobs(lines, limit).len(),
    ensures
        planned_jobs(lines, limit)[i].image_index == i,
    decreases lines.len(),
{
    if lines.len() > 0 {
        let before = planned_jobs(lines.drop_last(), limit);
        if i < before.len() {
            lemma_images_are_numbered(lines.drop_last(), limit, i);
        }
    }
}

/// `base64::DecodeError`: why a text is no base64. It is carried through
/// and never read.
#[verifier::external_type_specification]
#[verifier::external_body]
pub struct ExDecodeError(base64::DecodeError);

/// The bytes that `data` stands for in base64 with the standard alphabet
/// and padding, or nothing where `data` is no such encoding.
pub uninterp spec fn standard_decoding(data: Seq<char>) -> Option<Seq<u8>>;

/// `base64::Engine::decode` of the engine `general_purpose::STANDARD`.
/// Trusted: the call returns the decoded bytes or an error, and which of
/// the two, and which bytes, depends on the characters of `data` alone.
#[verifier::external_body]
fn standard_decode(data: &str) -> (r: Result<Vec<u8>, base64::DecodeError>)
    ensures
        match r {
            Ok(bytes) => standard_decoding(data@) == Some(bytes@),
            Err(_) => standard_decoding(data@) is None,
        },
{
    base64::Engine::decode(&base64::engine::general_purpose::STANDARD, data)
}

/// Decodes the result of a generation job into the bytes of the image.
/// Fails with `ImageGenerationFailed` exactly when `data` is no base64.
pub fn decode_image(data: &str) -> (r: Result<Vec<u8>, StageError>)
    ensures
        match r {
            Ok(bytes) => standard_decoding(data@) == Some(bytes@),
            Err(e) => e == StageError::ImageGenerationFailed && standard_decoding(data@) is None,
        },
{
    match standard_decode(data) {
        Ok(bytes) => Ok(bytes),
        Err(_) => Err(StageError::ImageGenerationFailed),
    }
}

/// The image that a polled job left, or nothing where it left none: the
/// job must have ended with a result, and the result must be base64.
pub open spec fn image_of(run: Run) -> Option<Seq<u8>> {
    match run.outcome {
        Some(Ok(data)) => standard_decoding(data),
        _ => None,
    }
}

/// The images that the jobs left, in order, or nothing where one of them
/// left none.
pub open spec fn images_of(runs: Seq<Run>) -> Option<Seq<Seq<u8>>>
    decreases runs.len(),
{
    if runs.len() == 0 {
        Some(seq![])
    } else {
        match (images_of(runs.drop_last()), image_of(runs.last())) {
            (Some(rest), Some(image)) => Some(rest.push(image)),
            _ => None,
        }
    }
}

/// The view of each run.
pub open spec fn runs_of(runs: Seq<PollRun>) -> Seq<Run> {
    Seq::new(runs.len(), |i: int| runs[i]@)
}

/// The bytes of each image.
pub open spec fn bytes_of(images: Seq<Vec<u8>>) -> Seq<Seq<u8>> {
    Seq::new(images.len(), |i: int| images[i]@)
}

/// One job without an image leaves the stage without images.
pub proof fn lemma_one_failure_spoils_all(runs: Seq<Run>, k: int)
    requires
        0 <= k < runs.len(),
        image_of(runs[k]) is None,
    ensures
        images_of(runs) is None,
    decreases runs.len(),
{
    if k < runs.len() - 1 {
        lemma_one_failure_spoils_all(runs.drop_last(), k);
    }
}

/// Gathers the images of a stage from the polled jobs. Fails with
/// `ImageGenerationFailed` exactly when one of the jobs left no image; no
/// image is handed out then.
pub fn collect_images(runs: &Vec<PollRun>) -> (r: Result<Vec<Vec<u8>>, StageError>)
    ensures
        match r {
            Ok(images) => images_of(runs_of(runs@)) == Some(bytes_of(images@)),
            Err(e) => e == StageError::ImageGenerationFailed && images_of(runs_of(runs@)) is None,
        },
{
    let mut images: Vec<Vec<u8>> = Vec::new();
    let mut k: usize = 0;
    while k < runs.len()
        invariant
            k <= runs.len(),
            images_of(runs_of(runs@).take(k as int)) == Some(bytes_of(images@)),
        decreases runs.len() - k,
    {
        let ghost all = runs_of(runs@);
        assert(all.take(k + 1).drop_last() =~= all.take(k as int));
        assert(all.take(k + 1).last() == runs@[k as int]@);
        assert(all[k as int] == runs@[k as int]@);
        let decoded = match &runs[k].outcome {
            Some(Ok(data)) => decode_image(data.as_str()),
            _ => Err(StageError::ImageGenerationFailed),
        };
        match decoded {
            Ok(bytes) => {
                let ghost before = bytes_of(images@);
                images.push(bytes);
                assert(bytes_of(images@) =~= before.push(bytes@));
            },
            Err(_) => {
                proof {
                    lemma_one_failure_spoils_all(all, k as int);
                }
                return Err(StageError::ImageGenerationFailed);
            },
        }
        k += 1;
    }
    assert(runs_of(runs@).take(runs.len() as int) =~= runs_of(runs@));
    Ok(images)
}

} // verus!
