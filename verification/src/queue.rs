//! The queue of a generation service: a job is submitted, its status is
//! read until it is completed or the reads are used up, and its result is
//! fetched and its images are downloaded.

use vstd::prelude::*;
use crate::text::{
    chars_of, decimal_text, eq_ignore_ascii_case, extend, format_decimal, format_signed,
    same_ignoring_case, same_text, signed_text, string_of,
};

verus! {

/// One image of a result.
#[derive(Debug, Clone, PartialEq, Eq)]
pub struct ImageInfo {
    pub url: Option<String>,
    pub content_type: Option<String>,
}

/// The result of a job.
#[derive(Debug, Clone)]
pub struct FalOutput {
    pub images: Option<Vec<ImageInfo>>,
    pub prompt: Option<String>,
    /// How long the service took, as the service wrote it.
    pub timings: Option<String>,
    pub seed: Option<u64>,
    pub has_nsfw_concepts: Option<Vec<bool>>,
}

/// The answer to a submission.
#[derive(Debug, Clone)]
pub struct GenerationResponse {
    pub request_id: Option<String>,
    /// The image itself, where the service hands it out at once.
    pub image_base64: Option<String>,
    /// What else the answer held, as the service wrote it.
    pub extra: String,
}

/// The number of status reads after which a job is given up.
pub const MAX_RETRIES: u32 = 30;

/// Seconds to wait before each status read.
pub const POLL_INTERVAL_SECS: u64 = 2;

/// The address under which the jobs of the queue are found.
pub const REQUESTS_URL: &'static str = "https://queue.fal.run/fal-ai/lightning-models/requests/";

/// The file extension of a content type: `jpg` for JPEG, `png` for PNG,
/// and `bin` for anything else or none.
pub open spec fn extension_of(content_type: Option<Seq<char>>) -> Seq<char> {
    match content_type {
        Some(t) => if t == "image/jpeg"@ {
            "jpg"@
        } else if t == "image/png"@ {
            "png"@
        } else {
            "bin"@
        },
        None => "bin"@,
    }
}

/// Guesses the file extension for a content type.
pub fn extension_from_content_type(content_type: Option<&str>) -> (extension: &'static str)
    ensures
        extension@ == extension_of(
            match content_type {
                Some(t) => Some(t@),
                None => None,
            },
        ),
{
    match content_type {
        Some(t) => {
            if same_text(t, "image/jpeg") {
                "jpg"
            } else if same_text(t, "image/png") {
                "png"
            } else {
                "bin"
            }
        },
        None => "bin",
    }
}

/// Where the status of the job `request_id` is read.
pub fn get_request_status(request_id: &str) -> (url: String)
    ensures
        url@ == REQUESTS_URL@ + request_id@ + "/status"@,
{
    let mut v = chars_of(REQUESTS_URL);
    extend(&mut v, &chars_of(request_id));
    extend(&mut v, &chars_of("/status"));
    string_of(&v)
}

/// Where the result of the job `request_id` is fetched.
pub fn get_request_result(request_id: &str) -> (url: String)
    ensures
        url@ == REQUESTS_URL@ + request_id@,
{
    let mut v = chars_of(REQUESTS_URL);
    extend(&mut v, &chars_of(request_id));
    string_of(&v)
}

/// What is to be done after a status read.
#[derive(Debug, Clone, Copy, PartialEq, Eq, Structural)]
pub enum QueueAction {
    /// The job is completed: fetch its result.
    Fetch,
    /// Wait this many seconds and read the status again.
    Wait(u64),
    /// The job did not complete in the permitted reads.
    GiveUp,
}

/// What to do after the read numbered `attempt`, counted from one, found
/// `status`: a job whose status is `completed`, in any case of letters, is
/// fetched; any other status, or none, is read again unless this was the
/// last permitted read.
pub open spec fn queue_next(attempt: nat, max_retries: nat, status: Option<Seq<char>>) -> QueueAction {
    if status is Some && same_ignoring_case(status->0, "completed"@) {
        QueueAction::Fetch
    } else if attempt >= max_retries {
        QueueAction::GiveUp
    } else {
        QueueAction::Wait(POLL_INTERVAL_SECS)
    }
}

/// Decides what to do after a status read.
pub fn queue_step(attempt: u32, max_retries: u32, status: Option<&str>) -> (action: QueueAction)
    ensures
        action == queue_next(
            attempt as nat,
            max_retries as nat,
            match status {
                Some(s) => Some(s@),
                None => None,
            },
        ),
{
    let completed = match status {
        Some(s) => eq_ignore_ascii_case(&chars_of(s), &chars_of("completed")),
        None => false,
    };
    if completed {
        QueueAction::Fetch
    } else if attempt >= max_retries {
        QueueAction::GiveUp
    } else {
        QueueAction::Wait(POLL_INTERVAL_SECS)
    }
}

/// `<stem>_<timestamp>.<extension>`
pub open spec fn stamped_name(stem: Seq<char>, timestamp: int, extension: Seq<char>) -> Seq<char> {
    stem + "_"@ + signed_text(timestamp) + "."@ + extension
}

/// Names a file by a stem, the seconds of the clock, and an extension.
pub fn stamped_file(stem: &str, timestamp: i64, extension: &str) -> (name: String)
    ensures
        name@ == stamped_name(stem@, timestamp as int, extension@),
{
    let mut v = chars_of(stem);
    extend(&mut v, &chars_of("_"));
    extend(&mut v, &format_signed(timestamp));
    extend(&mut v, &chars_of("."));
    extend(&mut v, &chars_of(extension));
    string_of(&v)
}

/// `final_image_<timestamp>_<index>.<extension>`
pub open spec fn image_name(timestamp: int, index: nat, extension: Seq<char>) -> Seq<char> {
    "final_image_"@ + signed_text(timestamp) + "_"@ + decimal_text(index) + "."@ + extension
}

/// One image to download.
#[derive(Debug, Clone, PartialEq, Eq)]
pub struct Download {
    pub url: String,
    pub file_name: String,
}

/// A `Download` as a mathematical value.
pub struct Fetching {
    pub url: Seq<char>,
    pub file_name: Seq<char>,
}

impl View for Download {
    type V = Fetching;

    open spec fn view(&self) -> Fetching {
        Fetching { url: self.url@, file_name: self.file_name@ }
    }
}

/// The view of each download.
pub open spec fn fetchings(downloads: Seq<Download>) -> Seq<Fetching> {
    Seq::new(downloads.len(), |i: int| downloads[i]@)
}

impl ImageInfo {
    /// The type of the image's content, as a mathematical value.
    pub open spec fn type_text(&self) -> Option<Seq<char>> {
        match self.content_type {
            Some(t) => Some(t@),
            None => None,
        }
    }
}

/// The downloads of the images: one for each image that has an address,
/// in order, named by the image's place among all images of the result.
pub open spec fn downloads_of(images: Seq<ImageInfo>, timestamp: int) -> Seq<Fetching>
    decreases images.len(),
{
    if images.len() == 0 {
        seq![]
    } else {
        let before = downloads_of(images.drop_last(), timestamp);
        match images.last().url {
            Some(url) => before.push(
                Fetching {
                    url: url@,
                    file_name: image_name(
                        timestamp,
                        (images.len() - 1) as nat,
                        extension_of(images.last().type_text()),
                    ),
                },
            ),
            None => before,
        }
    }
}

/// Plans the downloads of the images of a result.
pub fn plan_downloads(images: &Vec<ImageInfo>, timestamp: i64) -> (downloads: Vec<Download>)
    ensures
        fetchings(downloads@) == downloads_of(images@, timestamp as int),
{
    let mut downloads: Vec<Download> = Vec::new();
    let mut k: usize = 0;
    while k < images.len()
        invariant
            k <= images.len(),
            fetchings(downloads@) == downloads_of(images@.take(k as int), timestamp as int),
        decreases images.len() - k,
    {
        assert(images@.take(k + 1).drop_last() =~= images@.take(k as int));
        assert(images@.take(k + 1).last() == images@[k as int]);
        let image = &images[k];
        match &image.url {
            Some(url) => {
                let extension = match &image.content_type {
                    Some(t) => extension_from_content_type(Some(t.as_str())),
                    None => extension_from_content_type(None),
                };
                let mut v = chars_of("final_image_");
                extend(&mut v, &format_signed(timestamp));
                extend(&mut v, &chars_of("_"));
                extend(&mut v, &format_decimal(k as u64));
                extend(&mut v, &chars_of("."));
                extend(&mut v, &chars_of(extension));
                let ghost before = fetchings(downloads@);
                let download = Download { url: url.clone(), file_name: string_of(&v) };
                downloads.push(download);
                assert(fetchings(downloads@) =~= before.push(download@));
            },
            None => {},
        }
        k += 1;
    }
    assert(images@.take(images.len() as int) =~= images@);
    downloads
}

} // verus!
