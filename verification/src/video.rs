//! The command lines of the media tools, and where a run keeps its
//! audio, caption and video files. The commands are handed out as lists of
//! arguments; the caller runs them.

use vstd::prelude::*;
use crate::images::{run_file, run_folder};
use crate::text::{
    chars_of, extend, format_signed, push_text, replace_char, replaced, same_text, signed_text,
    string_of, string_of_range, string_texts, trim_range, trimmed,
};

verus! {

/// Pads a frame to even width and height.
pub const PAD_FILTER: &'static str = "pad=ceil(iw/2)*2:ceil(ih/2)*2";

/// `<folder>/<name>`
pub open spec fn in_folder(folder: Seq<char>, name: Seq<char>) -> Seq<char> {
    folder + "/"@ + name
}

/// `./tmp/<id>`
pub open spec fn id_folder(id: Seq<char>) -> Seq<char> {
    "./tmp/"@ + id
}

/// The directory that keeps the files of the run named `id`.
pub fn output_dir(id: &str) -> (path: String)
    ensures
        path@ == id_folder(id@),
{
    let mut v = chars_of("./tmp/");
    extend(&mut v, &chars_of(id));
    string_of(&v)
}

/// The file `name` of the run named `id`.
pub fn id_file(id: &str, name: &str) -> (path: String)
    ensures
        path@ == in_folder(id_folder(id@), name@),
{
    let mut v = chars_of("./tmp/");
    extend(&mut v, &chars_of(id));
    extend(&mut v, &chars_of("/"));
    extend(&mut v, &chars_of(name));
    string_of(&v)
}

/// Where the synthesized audio of the run named `id` is kept.
pub fn save_tts_audio(id: &str) -> (path: String)
    ensures
        path@ == in_folder(id_folder(id@), "tts.mp3"@),
{
    id_file(id, "tts.mp3")
}

/// The arguments of the transcription container: the working directory
/// is mounted, the words are highlighted, and the track is written into
/// the run's directory.
pub open spec fn transcription_args(
    id: Seq<char>,
    current_dir: Seq<char>,
    audio_path: Seq<char>,
) -> Seq<Seq<char>> {
    seq![
        "run"@,
        "-it"@,
        "-v"@,
        current_dir + ":/app"@,
        "whisperx:large-v3-en"@,
        "--"@,
        "--device"@,
        "cpu"@,
        "--compute_type"@,
        "float32"@,
        "--highlight_words"@,
        "True"@,
        "--output_format"@,
        "srt"@,
        "--output_dir"@,
        id_folder(id),
        audio_path,
    ]
}

/// Writes the arguments of the transcription container.
pub fn run_docker_transcription(id: &str, current_dir: &str, audio_path: &str) -> (args: Vec<
    String,
>)
    ensures
        string_texts(args@) == transcription_args(id@, current_dir@, audio_path@),
{
    let mut mount = chars_of(current_dir);
    extend(&mut mount, &chars_of(":/app"));
    let mut args: Vec<String> = Vec::new();
    push_text(&mut args, "run");
    push_text(&mut args, "-it");
    push_text(&mut args, "-v");
    push_text(&mut args, string_of(&mount).as_str());
    push_text(&mut args, "whisperx:large-v3-en");
    push_text(&mut args, "--");
    push_text(&mut args, "--device");
    push_text(&mut args, "cpu");
    push_text(&mut args, "--compute_type");
    push_text(&mut args, "float32");
    push_text(&mut args, "--highlight_words");
    push_text(&mut args, "True");
    push_text(&mut args, "--output_format");
    push_text(&mut args, "srt");
    push_text(&mut args, "--output_dir");
    push_text(&mut args, output_dir(id).as_str());
    push_text(&mut args, audio_path);
    assert(string_texts(args@) =~= transcription_args(id@, current_dir@, audio_path@));
    args
}

/// Where the caption stage of a run keeps its files.
#[derive(Debug, Clone, PartialEq, Eq)]
pub struct SubtitlePaths {
    /// The raw track that the transcription writes.
    pub raw_track: String,
    /// The normalized track.
    pub normalized_track: String,
    /// The track as the video composition renders it.
    pub styled_track: String,
}

/// Names the files of the caption stage of the run named `id`.
pub fn generate_subtitles(id: &str) -> (paths: SubtitlePaths)
    ensures
        paths.raw_track@ == in_folder(id_folder(id@), "tts.srt"@),
        paths.normalized_track@ == in_folder(id_folder(id@), "final_srt.srt"@),
        paths.styled_track@ == in_folder(id_folder(id@), "tts.ass"@),
{
    SubtitlePaths {
        raw_track: id_file(id, "tts.srt"),
        normalized_track: id_file(id, "final_srt.srt"),
        styled_track: id_file(id, "tts.ass"),
    }
}

/// Writes the arguments that turn the track `srt_path` into the styled
/// track `ass_path`.
pub fn convert_srt_to_ass(srt_path: &str, ass_path: &str) -> (args: Vec<String>)
    ensures
        string_texts(args@) == seq!["-i"@, srt_path@, ass_path@],
{
    let mut args: Vec<String> = Vec::new();
    push_text(&mut args, "-i");
    push_text(&mut args, srt_path);
    push_text(&mut args, ass_path);
    assert(string_texts(args@) =~= seq!["-i"@, srt_path@, ass_path@]);
    args
}

/// The arguments that compose the slideshow: the images of the file list
/// one after another, the audio, and the styled track, into `output_file`.
pub open spec fn compose_args(
    filelist: Seq<char>,
    audio_path: Seq<char>,
    styled_track: Seq<char>,
    output_file: Seq<char>,
) -> Seq<Seq<char>> {
    seq![
        "-y"@,
        "-f"@,
        "concat"@,
        "-safe"@,
        "0"@,
        "-i"@,
        filelist,
        "-i"@,
        audio_path,
        "-i"@,
        styled_track,
        "-c:v"@,
        "libx264"@,
        "-vf"@,
        PAD_FILTER@,
        "-pix_fmt"@,
        "yuv420p"@,
        "-c:a"@,
        "aac"@,
        "-loglevel"@,
        "error"@,
        output_file,
    ]
}

/// The arguments that burn the styled track into `video_file`.
pub open spec fn burn_args(
    video_file: Seq<char>,
    styled_track: Seq<char>,
    final_output: Seq<char>,
) -> Seq<Seq<char>> {
    seq![
        "-y"@,
        "-i"@,
        video_file,
        "-vf"@,
        "ass="@ + styled_track,
        "-c:a"@,
        "copy"@,
        "-loglevel"@,
        "error"@,
        final_output,
    ]
}

/// How the video of a run is composed.
#[derive(Debug, Clone)]
pub struct Composition {
    /// The slideshow with its audio.
    pub output_file: String,
    /// The arguments that compose it.
    pub compose: Vec<String>,
    /// The slideshow with the captions burned in: the run's video.
    pub final_output: String,
    /// The arguments that burn the captions in.
    pub burn: Vec<String>,
}

/// Plans the composition of the video of the run `run_id`. The slideshow
/// is named by `timestamp`, the seconds of the clock when it is made.
pub fn create_video_from_filelist_and_audio(run_id: i64, timestamp: i64, audio_path: &str) -> (plan:
    Composition)
    ensures
        plan.output_file@ == in_folder(
            run_folder(run_id as int),
            signed_text(timestamp as int) + ".mp4"@,
        ),
        plan.final_output@ == in_folder(run_folder(run_id as int), "final_output.mp4"@),
        string_texts(plan.compose@) == compose_args(
            in_folder(run_folder(run_id as int), "filelist.txt"@),
            audio_path@,
            in_folder(run_folder(run_id as int), "tts.ass"@),
            plan.output_file@,
        ),
        string_texts(plan.burn@) == burn_args(
            plan.output_file@,
            in_folder(run_folder(run_id as int), "tts.ass"@),
            plan.final_output@,
        ),
{
    let mut name = format_signed(timestamp);
    extend(&mut name, &chars_of(".mp4"));
    let output_file = run_file(run_id, string_of(&name).as_str());
    let filelist = run_file(run_id, "filelist.txt");
    let styled_track = run_file(run_id, "tts.ass");
    let final_output = run_file(run_id, "final_output.mp4");
    let mut compose: Vec<String> = Vec::new();
    push_text(&mut compose, "-y");
    push_text(&mut compose, "-f");
    push_text(&mut compose, "concat");
    push_text(&mut compose, "-safe");
    push_text(&mut compose, "0");
    push_text(&mut compose, "-i");
    push_text(&mut compose, filelist.as_str());
    push_text(&mut compose, "-i");
    push_text(&mut compose, audio_path);
    push_text(&mut compose, "-i");
    push_text(&mut compose, styled_track.as_str());
    push_text(&mut compose, "-c:v");
    push_text(&mut compose, "libx264");
    push_text(&mut compose, "-vf");
    push_text(&mut compose, PAD_FILTER);
    push_text(&mut compose, "-pix_fmt");
    push_text(&mut compose, "yuv420p");
    push_text(&mut compose, "-c:a");
    push_text(&mut compose, "aac");
    push_text(&mut compose, "-loglevel");
    push_text(&mut compose, "error");
    push_text(&mut compose, output_file.as_str());
    assert(string_texts(compose@) =~= compose_args(
        filelist@,
        audio_path@,
        styled_track@,
        output_file@,
    ));
    let burn = add_subtitles(output_file.as_str(), styled_track.as_str(), final_output.as_str());
    Composition { output_file, compose, final_output, burn }
}

fn add_subtitles(video_file: &str, styled_track: &str, final_output: &str) -> (args: Vec<String>)
    ensures
        string_texts(args@) == burn_args(video_file@, styled_track@, final_output@),
{
    let mut filter = chars_of("ass=");
    extend(&mut filter, &chars_of(styled_track));
    let mut args: Vec<String> = Vec::new();
    push_text(&mut args, "-y");
    push_text(&mut args, "-i");
    push_text(&mut args, video_file);
    push_text(&mut args, "-vf");
    push_text(&mut args, string_of(&filter).as_str());
    push_text(&mut args, "-c:a");
    push_text(&mut args, "copy");
    push_text(&mut args, "-loglevel");
    push_text(&mut args, "error");
    push_text(&mut args, final_output);
    assert(string_texts(args@) =~= burn_args(video_file@, styled_track@, final_output@));
    args
}

/// Writes the arguments that lay the captions of `subtitle_file` over
/// `video_file`.
pub fn add_subtitles_to_video(video_file: &str, subtitle_file: &str, output_file: &str) -> (args:
    Vec<String>)
    ensures
        string_texts(args@) == seq![
            "-i"@,
            video_file@,
            "-vf"@,
            "subtitles="@ + subtitle_file@,
            "-c:a"@,
            "copy"@,
            output_file@,
        ],
{
    let mut filter = chars_of("subtitles=");
    extend(&mut filter, &chars_of(subtitle_file));
    let mut args: Vec<String> = Vec::new();
    push_text(&mut args, "-i");
    push_text(&mut args, video_file);
    push_text(&mut args, "-vf");
    push_text(&mut args, string_of(&filter).as_str());
    push_text(&mut args, "-c:a");
    push_text(&mut args, "copy");
    push_text(&mut args, output_file);
    assert(string_texts(args@) =~= seq![
        "-i"@,
        video_file@,
        "-vf"@,
        "subtitles="@ + subtitle_file@,
        "-c:a"@,
        "copy"@,
        output_file@,
    ]);
    args
}

/// Two halves side by side.
pub const SIDE_BY_SIDE: &'static str =
    "[0:v]scale=540:1920,setsar=1[vid1]; [1:v]scale=540:1920,setsar=1[vid2]; [vid1][vid2]hstack=inputs=2[v]";

/// Two halves one above the other.
pub const STACKED: &'static str =
    "[0:v]scale=1080:960,setsar=1[vid1]; [1:v]scale=1080:960,setsar=1[vid2]; [vid1][vid2]vstack=inputs=2[v]";

/// The filter of a stacking choice: `h` sets the videos side by side, `v`
/// one above the other, and nothing else is a choice.
pub open spec fn stacking_filter(choice: Seq<char>) -> Option<Seq<char>> {
    if choice == "h"@ {
        Some(SIDE_BY_SIDE@)
    } else if choice == "v"@ {
        Some(STACKED@)
    } else {
        None
    }
}

/// The arguments that combine two videos into one of the first one's
/// duration.
pub open spec fn combine_args(
    video1: Seq<char>,
    video2: Seq<char>,
    filter: Seq<char>,
    duration: Seq<char>,
    output_path: Seq<char>,
) -> Seq<Seq<char>> {
    seq![
        "-i"@,
        video1,
        "-stream_loop"@,
        "-1"@,
        "-i"@,
        video2,
        "-filter_complex"@,
        filter,
        "-map"@,
        "[v]"@,
        "-map"@,
        "0:a?"@,
        "-t"@,
        duration,
        "-s"@,
        "1080x1920"@,
        "-y"@,
        output_path,
    ]
}

/// Writes the arguments that combine two videos, side by side or stacked.
/// There are none exactly when `stacking_choice` is neither `h` nor `v`.
pub fn brainrot(
    video1: &str,
    video2: &str,
    stacking_choice: &str,
    duration: &str,
    output_path: &str,
) -> (r: Option<Vec<String>>)
    ensures
        match r {
            Some(args) => stacking_filter(stacking_choice@) is Some && string_texts(args@)
                == combine_args(
                video1@,
                video2@,
                stacking_filter(stacking_choice@)->0,
                duration@,
                output_path@,
            ),
            None => stacking_filter(stacking_choice@) is None,
        },
{
    let filter: &str = if same_text(stacking_choice, "h") {
        SIDE_BY_SIDE
    } else if same_text(stacking_choice, "v") {
        STACKED
    } else {
        return None;
    };
    let mut args: Vec<String> = Vec::new();
    push_text(&mut args, "-i");
    push_text(&mut args, video1);
    push_text(&mut args, "-stream_loop");
    push_text(&mut args, "-1");
    push_text(&mut args, "-i");
    push_text(&mut args, video2);
    push_text(&mut args, "-filter_complex");
    push_text(&mut args, filter);
    push_text(&mut args, "-map");
    push_text(&mut args, "[v]");
    push_text(&mut args, "-map");
    push_text(&mut args, "0:a?");
    push_text(&mut args, "-t");
    push_text(&mut args, duration);
    push_text(&mut args, "-s");
    push_text(&mut args, "1080x1920");
    push_text(&mut args, "-y");
    push_text(&mut args, output_path);
    assert(string_texts(args@) =~= combine_args(
        video1@,
        video2@,
        filter@,
        duration@,
        output_path@,
    ));
    Some(args)
}

/// The duration that a probe printed: its output without surrounding
/// whitespace, or nothing where that is empty.
pub open spec fn probed_duration(output: Seq<char>) -> Option<Seq<char>> {
    if trimmed(output).len() == 0 {
        None
    } else {
        Some(trimmed(output))
    }
}

/// Reads the duration of a video out of what the probe printed.
pub fn get_video_duration(output: &str) -> (r: Option<String>)
    ensures
        match r {
            Some(duration) => probed_duration(output@) == Some(duration@),
            None => probed_duration(output@) is None,
        },
{
    let v = chars_of(output);
    let bounds = trim_range(&v, 0, v.len());
    assert(v@.subrange(0, v.len() as int) =~= v@);
    if bounds.0 == bounds.1 {
        None
    } else {
        Some(string_of_range(&v, bounds.0, bounds.1))
    }
}

/// The file that keeps the video fetched from `url`: the address with
/// every slash and colon turned into an underscore, and `.mp4` behind it.
pub open spec fn video_file_name(url: Seq<char>) -> Seq<char> {
    replaced(replaced(url, '/', '_'), ':', '_') + ".mp4"@
}

/// Names the file that keeps the video fetched from `url`.
pub fn download_file_name(url: &str) -> (name: String)
    ensures
        name@ == video_file_name(url@),
{
    let mut v = replace_char(&replace_char(&chars_of(url), '/', '_'), ':', '_');
    extend(&mut v, &chars_of(".mp4"));
    string_of(&v)
}

} // verus!
