//! One run of the pipeline as a chain of typed stages.
//!
//! A run is a `TweetCycle<T>`, where `T` is the stage it is in and holds
//! what the run has gathered so far. Each stage has one operation that
//! consumes the run and hands out the run in its next stage, so a stage
//! can neither be skipped nor repeated. The outside work of a stage is
//! done by the caller, who hands its outcome to the stage's operation.

use vstd::prelude::*;
use crate::captions::{parse_srt, track_lines};
use crate::error::StageError;
use crate::images::{
    build_manifest, collect_images, images_of, manifest_of, plan_images, planned_jobs, runs_of,
    shown, ManifestEntry, Shown, WORDS_PER_LINE,
};
use crate::polling::{PollRun, Run};
use crate::sources::{extract_topic, get_random_user_id, is_source, topic_of};
use crate::text::{chars_of, extend, string_of};

verus! {

/// What a run has gathered, each part there or not yet.
pub struct StageContext {
    pub section: Option<Seq<char>>,
    pub source_id: Option<Seq<char>>,
    pub topic: Option<Seq<char>>,
    pub message: Option<Seq<char>>,
    pub audio_path: Option<Seq<char>>,
    pub caption_path: Option<Seq<char>>,
    pub image_manifest: Option<Seq<Shown>>,
    pub video_path: Option<Seq<char>>,
}

/// Which parts are there, in the order in which a run gathers them.
pub open spec fn filled(context: StageContext) -> Seq<bool> {
    seq![
        context.section is Some,
        context.source_id is Some,
        context.topic is Some,
        context.message is Some,
        context.audio_path is Some,
        context.caption_path is Some,
        context.image_manifest is Some,
        context.video_path is Some,
    ]
}

/// The first `n` parts are there, and no other.
pub open spec fn filled_to(context: StageContext, n: nat) -> bool {
    forall|i: int| 0 <= i < 8 ==> #[trigger] filled(context)[i] == (i < n)
}

/// Every part that is there in `before` is there in `after`, unchanged.
pub open spec fn extends(before: StageContext, after: StageContext) -> bool {
    &&& before.section is Some ==> after.section == before.section
    &&& before.source_id is Some ==> after.source_id == before.source_id
    &&& before.topic is Some ==> after.topic == before.topic
    &&& before.message is Some ==> after.message == before.message
    &&& before.audio_path is Some ==> after.audio_path == before.audio_path
    &&& before.caption_path is Some ==> after.caption_path == before.caption_path
    &&& before.image_manifest is Some ==> after.image_manifest == before.image_manifest
    &&& before.video_path is Some ==> after.video_path == before.video_path
}

/// A stage of a run.
pub trait Stage {
    /// What a run in this stage has gathered.
    spec fn context(&self) -> StageContext;

    /// The place of the stage in the fixed order, counted from zero.
    spec fn position(&self) -> nat;

    /// How many parts a run in this stage has gathered.
    spec fn parts(&self) -> nat;

    /// A run in this stage has gathered the first `parts()` parts and no
    /// other.
    proof fn lemma_filled_in_order(&self)
        ensures
            filled_to(self.context(), self.parts()),
    ;
}

/// Nothing is gathered yet.
#[derive(Debug)]
pub struct Initial;

/// The source is selected.
#[derive(Debug)]
pub struct FetchTweets {
    pub section: String,
    pub user_id: String,
}

/// The topic is derived.
#[derive(Debug)]
pub struct GenerateTweetText {
    pub section: String,
    pub user_id: String,
    pub topic: String,
}

/// The message is written.
#[derive(Debug)]
pub struct GenerateAudio {
    pub section: String,
    pub user_id: String,
    pub topic: String,
    pub tweet_text: String,
}

/// The message is spoken.
#[derive(Debug)]
pub struct GenerateSubtitles {
    pub section: String,
    pub user_id: String,
    pub topic: String,
    pub tweet_text: String,
    pub audio_path: String,
}

/// The caption track is written.
#[derive(Debug)]
pub struct GenerateImages {
    pub section: String,
    pub user_id: String,
    pub topic: String,
    pub tweet_text: String,
    pub audio_path: String,
    pub srt_file: String,
}

/// The images are there.
#[derive(Debug)]
pub struct ImagesGenerated {
    pub section: String,
    pub user_id: String,
    pub topic: String,
    pub tweet_text: String,
    pub audio_path: String,
    pub srt_file: String,
    pub image_manifest: Vec<ManifestEntry>,
}

/// The video is composed.
#[derive(Debug)]
pub struct ImagesCombinedIntoVideoPlusAudio {
    pub section: String,
    pub user_id: String,
    pub topic: String,
    pub tweet_text: String,
    pub audio_path: String,
    pub srt_file: String,
    pub image_manifest: Vec<ManifestEntry>,
    pub video_path: String,
}

/// The run is over. It keeps all that it gathered.
#[derive(Debug)]
pub struct Complete {
    pub section: String,
    pub user_id: String,
    pub topic: String,
    pub tweet_text: String,
    pub audio_path: String,
    pub srt_file: String,
    pub image_manifest: Vec<ManifestEntry>,
    pub video_path: String,
}

impl Stage for Initial {
    open spec fn context(&self) -> StageContext {
        StageContext {
            section: None,
            source_id: None,
            topic: None,
            message: None,
            audio_path: None,
            caption_path: None,
            image_manifest: None,
            video_path: None,
        }
    }

    open spec fn position(&self) -> nat {
        0
    }

    open spec fn parts(&self) -> nat {
        0
    }

    proof fn lemma_filled_in_order(&self) {
    }
}

impl Stage for FetchTweets {
    open spec fn context(&self) -> StageContext {
        StageContext {
            section: Some(self.section@),
            source_id: Some(self.user_id@),
            topic: None,
            message: None,
            audio_path: None,
            caption_path: None,
            image_manifest: None,
            video_path: None,
        }
    }

    open spec fn position(&self) -> nat {
        1
    }

    open spec fn parts(&self) -> nat {
        2
    }

    proof fn lemma_filled_in_order(&self) {
    }
}

impl Stage for GenerateTweetText {
    open spec fn context(&self) -> StageContext {
        StageContext {
            section: Some(self.section@),
            source_id: Some(self.user_id@),
            topic: Some(self.topic@),
            message: None,
            audio_path: None,
            caption_path: None,
            image_manifest: None,
            video_path: None,
        }
    }

    open spec fn position(&self) -> nat {
        2
    }

    open spec fn parts(&self) -> nat {
        3
    }

    proof fn lemma_filled_in_order(&self) {
    }
}

impl Stage for GenerateAudio {
    open spec fn context(&self) -> StageContext {
        StageContext {
            section: Some(self.section@),
            source_id: Some(self.user_id@),
            topic: Some(self.topic@),
            message: Some(self.tweet_text@),
            audio_path: None,
            caption_path: None,
            image_manifest: None,
            video_path: None,
        }
    }

    open spec fn position(&self) -> nat {
        3
    }

    open spec fn parts(&self) -> nat {
        4
    }

    proof fn lemma_filled_in_order(&self) {
    }
}

impl Stage for GenerateSubtitles {
    open spec fn context(&self) -> StageContext {
        StageContext {
            section: Some(self.section@),
            source_id: Some(self.user_id@),
            topic: Some(self.topic@),
            message: Some(self.tweet_text@),
            audio_path: Some(self.audio_path@),
            caption_path: None,
            image_manifest: None,
            video_path: None,
        }
    }

    open spec fn position(&self) -> nat {
        4
    }

    open spec fn parts(&self) -> nat {
        5
    }

    proof fn lemma_filled_in_order(&self) {
    }
}

impl Stage for GenerateImages {
    open spec fn context(&self) -> StageContext {
        StageContext {
            section: Some(self.section@),
            source_id: Some(self.user_id@),
            topic: Some(self.topic@),
            message: Some(self.tweet_text@),
            audio_path: Some(self.audio_path@),
            caption_path: Some(self.srt_file@),
            image_manifest: None,
            video_path: None,
        }
    }

    open spec fn position(&self) -> nat {
        5
    }

    open spec fn parts(&self) -> nat {
        6
    }

    proof fn lemma_filled_in_order(&self) {
    }
}

impl Stage for ImagesGenerated {
    open spec fn context(&self) -> StageContext {
        StageContext {
            section: Some(self.section@),
            source_id: Some(self.user_id@),
            topic: Some(self.topic@),
            message: Some(self.tweet_text@),
            audio_path: Some(self.audio_path@),
            caption_path: Some(self.srt_file@),
            image_manifest: Some(shown(self.image_manifest@)),
            video_path: None,
        }
    }

    open spec fn position(&self) -> nat {
        6
    }

    open spec fn parts(&self) -> nat {
        7
    }

    proof fn lemma_filled_in_order(&self) {
    }
}

impl Stage for ImagesCombinedIntoVideoPlusAudio {
    open spec fn context(&self) -> StageContext {
        StageContext {
            section: Some(self.section@),
            source_id: Some(self.user_id@),
            topic: Some(self.topic@),
            message: Some(self.tweet_text@),
            audio_path: Some(self.audio_path@),
            caption_path: Some(self.srt_file@),
            image_manifest: Some(shown(self.image_manifest@)),
            video_path: Some(self.video_path@),
        }
    }

    open spec fn position(&self) -> nat {
        7
    }

    open spec fn parts(&self) -> nat {
        8
    }

    proof fn lemma_filled_in_order(&self) {
    }
}

impl Stage for Complete {
    open spec fn context(&self) -> StageContext {
        StageContext {
            section: Some(self.section@),
            source_id: Some(self.user_id@),
            topic: Some(self.topic@),
            message: Some(self.tweet_text@),
            audio_path: Some(self.audio_path@),
            caption_path: Some(self.srt_file@),
            image_manifest: Some(shown(self.image_manifest@)),
            video_path: Some(self.video_path@),
        }
    }

    open spec fn position(&self) -> nat {
        8
    }

    open spec fn parts(&self) -> nat {
        8
    }

    proof fn lemma_filled_in_order(&self) {
    }
}

/// A run in the stage `T`.
#[derive(Debug)]
pub struct TweetCycle<T> {
    run_id: i64,
    state: T,
}

impl<T> TweetCycle<T> {
    /// The run's identifier, as contracts speak of it.
    pub closed spec fn id(&self) -> i64 {
        self.run_id
    }

    /// The run's stage, as contracts speak of it.
    pub closed spec fn stage(&self) -> T {
        self.state
    }

    /// The run's identifier.
    pub fn run_id(&self) -> (id: i64)
        ensures
            id == self.id(),
    {
        self.run_id
    }

    /// The run's stage and what it holds.
    pub fn state(&self) -> (state: &T)
        ensures
            *state == self.stage(),
    {
        &self.state
    }
}

/// The run `after` follows directly on `before`: it is the same run, one
/// stage on, and has kept all that `before` had gathered.
pub open spec fn advances<A: Stage, B: Stage>(before: TweetCycle<A>, after: TweetCycle<B>) -> bool {
    &&& after.id() == before.id()
    &&& after.stage().position() == before.stage().position() + 1
    &&& extends(before.stage().context(), after.stage().context())
}

impl TweetCycle<Initial> {
    /// Starts the run `run_id`.
    pub fn new(run_id: i64) -> (cycle: TweetCycle<Initial>)
        ensures
            cycle.id() == run_id,
    {
        TweetCycle { run_id, state: Initial }
    }

    /// Takes the selected source into the run. Fails with
    /// `SourceUnavailable` exactly when there is none.
    pub fn select_user_from(self, source: Option<(String, String)>) -> (r: Result<
        TweetCycle<FetchTweets>,
        StageError,
    >)
        ensures
            match (r, source) {
                (Ok(next), Some(pair)) => advances(self, next) && next.stage().section@ == pair.0@
                    && next.stage().user_id@ == pair.1@,
                (Err(e), None) => e == StageError::SourceUnavailable,
                _ => false,
            },
    {
        match source {
            Some(pair) => Ok(
                TweetCycle {
                    run_id: self.run_id,
                    state: FetchTweets { section: pair.0, user_id: pair.1 },
                },
            ),
            None => Err(StageError::SourceUnavailable),
        }
    }

    /// Selects a section at random and an account of it at random. No
    /// section is without accounts, so the selection succeeds: whatever is
    /// drawn, the run goes on with an account of the drawn section.
    pub fn select_user(self) -> (r: Result<TweetCycle<FetchTweets>, StageError>)
        ensures
            match r {
                Ok(next) => advances(self, next) && is_source(
                    next.stage().section@,
                    next.stage().user_id@,
                ),
                Err(_) => false,
            },
    {
        let source = match get_random_user_id() {
            Some(pair) => Some((pair.0.to_owned(), pair.1.to_owned())),
            None => None,
        };
        self.select_user_from(source)
    }
}

impl TweetCycle<FetchTweets> {
    /// Takes the topic of the summary of the source's recent items into the
    /// run. A summary that names no topic gives the topic `NoTopicFound`
    /// and the run goes on. Fails with `GenerationFailed` exactly when
    /// there is no summary.
    pub fn generate_topic(self, summary: Option<&str>) -> (r: Result<
        TweetCycle<GenerateTweetText>,
        StageError,
    >)
        ensures
            match r {
                Ok(next) => summary is Some && advances(self, next) && next.stage().topic@
                    == topic_of(summary->0@),
                Err(e) => summary is None && e == StageError::GenerationFailed,
            },
    {
        match summary {
            Some(text) => Ok(
                TweetCycle {
                    run_id: self.run_id,
                    state: GenerateTweetText {
                        section: self.state.section,
                        user_id: self.state.user_id,
                        topic: extract_topic(text),
                    },
                },
            ),
            None => Err(StageError::GenerationFailed),
        }
    }
}

impl TweetCycle<GenerateTweetText> {
    /// Takes the generated message into the run. Fails with
    /// `GenerationFailed` exactly when there is none.
    pub fn generate_tweet_text(self, message: Option<String>) -> (r: Result<
        TweetCycle<GenerateAudio>,
        StageError,
    >)
        ensures
            match r {
                Ok(next) => message is Some && advances(self, next) && next.stage().tweet_text@
                    == message->0@,
                Err(e) => message is None && e == StageError::GenerationFailed,
            },
    {
        match message {
            Some(tweet_text) => Ok(
                TweetCycle {
                    run_id: self.run_id,
                    state: GenerateAudio {
                        section: self.state.section,
                        user_id: self.state.user_id,
                        topic: self.state.topic,
                        tweet_text,
                    },
                },
            ),
            None => Err(StageError::GenerationFailed),
        }
    }
}

impl TweetCycle<GenerateAudio> {
    /// Takes the place of the synthesized audio into the run. Fails with
    /// `SynthesisFailed` exactly when there is none.
    pub fn generate_audio(self, audio_path: Option<String>) -> (r: Result<
        TweetCycle<GenerateSubtitles>,
        StageError,
    >)
        ensures
            match r {
                Ok(next) => audio_path is Some && advances(self, next)
                    && next.stage().audio_path@ == audio_path->0@,
                Err(e) => audio_path is None && e == StageError::SynthesisFailed,
            },
    {
        match audio_path {
            Some(path) => Ok(
                TweetCycle {
                    run_id: self.run_id,
                    state: GenerateSubtitles {
                        section: self.state.section,
                        user_id: self.state.user_id,
                        topic: self.state.topic,
                        tweet_text: self.state.tweet_text,
                        audio_path: path,
                    },
                },
            ),
            None => Err(StageError::SynthesisFailed),
        }
    }
}

/// How the caption stage ends: without a transcript it fails as
/// `TranscriptionFailed`, with a transcript but no written track as
/// `FormatError`.
pub open spec fn caption_failure(transcribed: bool, written: bool) -> Option<StageError> {
    if !transcribed {
        Some(StageError::TranscriptionFailed)
    } else if !written {
        Some(StageError::FormatError)
    } else {
        None
    }
}

impl TweetCycle<GenerateSubtitles> {
    /// Takes the place of the normalized caption track into the run.
    /// `transcribed` says whether the audio was transcribed, `srt_file`
    /// where the normalized track was written, if it was.
    pub fn generate_subtitles(self, transcribed: bool, srt_file: Option<String>) -> (r: Result<
        TweetCycle<GenerateImages>,
        StageError,
    >)
        ensures
            match r {
                Ok(next) => caption_failure(transcribed, srt_file is Some) is None && advances(
                    self,
                    next,
                ) && next.stage().srt_file@ == srt_file->0@,
                Err(e) => caption_failure(transcribed, srt_file is Some) == Some(e),
            },
    {
        if !transcribed {
            return Err(StageError::TranscriptionFailed);
        }
        match srt_file {
            Some(path) => Ok(
                TweetCycle {
                    run_id: self.run_id,
                    state: GenerateImages {
                        section: self.state.section,
                        user_id: self.state.user_id,
                        topic: self.state.topic,
                        tweet_text: self.state.tweet_text,
                        audio_path: self.state.audio_path,
                        srt_file: path,
                    },
                },
            ),
            None => Err(StageError::FormatError),
        }
    }
}

/// How the image stage ends for a caption track and the polled jobs of
/// its images: a track that cannot be read fails it as
/// `MalformedTimestamp`; otherwise there must be one job for each planned
/// image, and each must have left an image, or it fails as
/// `ImageGenerationFailed`. Where it succeeds it hands out the manifest of
/// the planned images.
pub open spec fn image_stage(track: Seq<char>, runs: Seq<Run>) -> Result<Seq<Shown>, StageError> {
    match track_lines(track) {
        None => Err(StageError::MalformedTimestamp),
        Some(lines) => {
            let jobs = planned_jobs(lines, WORDS_PER_LINE as nat);
            if runs.len() != jobs.len() || images_of(runs) is None {
                Err(StageError::ImageGenerationFailed)
            } else {
                Ok(manifest_of(jobs))
            }
        },
    }
}

impl TweetCycle<GenerateImages> {
    /// Takes the manifest of the generated images into the run. `track` is
    /// the normalized caption track, `runs` the polled jobs of its planned
    /// images, in order. Nothing is carried forward from a stage that
    /// failed.
    pub fn generate_images(self, track: &str, runs: &Vec<PollRun>) -> (r: Result<
        TweetCycle<ImagesGenerated>,
        StageError,
    >)
        ensures
            match r {
                Ok(next) => advances(self, next) && image_stage(track@, runs_of(runs@)) == Ok::<
                    Seq<Shown>,
                    StageError,
                >(shown(next.stage().image_manifest@)),
                Err(e) => image_stage(track@, runs_of(runs@)) == Err::<Seq<Shown>, StageError>(e),
            },
    {
        let lines = match parse_srt(track) {
            Ok(lines) => lines,
            Err(_) => {
                return Err(StageError::MalformedTimestamp);
            },
        };
        let jobs = plan_images(&lines, WORDS_PER_LINE);
        if runs.len() != jobs.len() {
            return Err(StageError::ImageGenerationFailed);
        }
        match collect_images(runs) {
            Ok(_) => {},
            Err(_) => {
                return Err(StageError::ImageGenerationFailed);
            },
        }
        Ok(
            TweetCycle {
                run_id: self.run_id,
                state: ImagesGenerated {
                    section: self.state.section,
                    user_id: self.state.user_id,
                    topic: self.state.topic,
                    tweet_text: self.state.tweet_text,
                    audio_path: self.state.audio_path,
                    srt_file: self.state.srt_file,
                    image_manifest: build_manifest(&jobs),
                },
            },
        )
    }
}

impl TweetCycle<ImagesGenerated> {
    /// Takes the place of the composed video into the run. Fails with
    /// `CompositionFailed` exactly when there is none.
    pub fn create_video_from_images(self, video_path: Option<String>) -> (r: Result<
        TweetCycle<ImagesCombinedIntoVideoPlusAudio>,
        StageError,
    >)
        ensures
            match r {
                Ok(next) => video_path is Some && advances(self, next)
                    && next.stage().video_path@ == video_path->0@,
                Err(e) => video_path is None && e == StageError::CompositionFailed,
            },
    {
        match video_path {
            Some(path) => Ok(
                TweetCycle {
                    run_id: self.run_id,
                    state: ImagesCombinedIntoVideoPlusAudio {
                        section: self.state.section,
                        user_id: self.state.user_id,
                        topic: self.state.topic,
                        tweet_text: self.state.tweet_text,
                        audio_path: self.state.audio_path,
                        srt_file: self.state.srt_file,
                        image_manifest: self.state.image_manifest,
                        video_path: path,
                    },
                },
            ),
            None => Err(StageError::CompositionFailed),
        }
    }
}

impl TweetCycle<ImagesCombinedIntoVideoPlusAudio> {
    /// Ends the run.
    pub fn complete(self) -> (next: TweetCycle<Complete>)
        ensures
            advances(self, next),
            next.stage().context() == self.stage().context(),
    {
        TweetCycle {
            run_id: self.run_id,
            state: Complete {
                section: self.state.section,
                user_id: self.state.user_id,
                topic: self.state.topic,
                tweet_text: self.state.tweet_text,
                audio_path: self.state.audio_path,
                srt_file: self.state.srt_file,
                image_manifest: self.state.image_manifest,
                video_path: self.state.video_path,
            },
        }
    }
}

/// What is kept over one step is kept over two.
pub proof fn lemma_extends_is_transitive(a: StageContext, b: StageContext, c: StageContext)
    requires
        extends(a, b),
        extends(b, c),
    ensures
        extends(a, c),
{
}

/// The outcomes of the outside work of one run, stage by stage.
#[derive(Debug)]
pub struct RunScript {
    /// The selected section and account, if any.
    pub source: Option<(String, String)>,
    /// The summary of the account's recent items, if it was made.
    pub summary: Option<String>,
    /// The generated message, if it was made.
    pub message: Option<String>,
    /// Where the synthesized audio is, if it was made.
    pub audio_path: Option<String>,
    /// Whether the audio was transcribed.
    pub transcribed: bool,
    /// Where the normalized caption track is, if it was written.
    pub srt_file: Option<String>,
    /// The normalized caption track.
    pub track: String,
    /// The polled jobs of the planned images, in order.
    pub image_runs: Vec<PollRun>,
    /// Where the composed video is, if it was made.
    pub video_path: Option<String>,
}

/// The failure of the first stage that fails, in the order of the stages,
/// or nothing where every stage succeeds.
pub open spec fn first_failure(script: RunScript) -> Option<StageError> {
    if script.source is None {
        Some(StageError::SourceUnavailable)
    } else if script.summary is None {
        Some(StageError::GenerationFailed)
    } else if script.message is None {
        Some(StageError::GenerationFailed)
    } else if script.audio_path is None {
        Some(StageError::SynthesisFailed)
    } else if caption_failure(script.transcribed, script.srt_file is Some) is Some {
        caption_failure(script.transcribed, script.srt_file is Some)
    } else if image_stage(script.track@, runs_of(script.image_runs@)) is Err {
        Some(image_stage(script.track@, runs_of(script.image_runs@))->Err_0)
    } else if script.video_path is None {
        Some(StageError::CompositionFailed)
    } else {
        None
    }
}

/// What a run has gathered when every stage of the script succeeded.
pub open spec fn gathered(script: RunScript) -> StageContext {
    StageContext {
        section: Some((script.source->0).0@),
        source_id: Some((script.source->0).1@),
        topic: Some(topic_of(script.summary->0@)),
        message: Some(script.message->0@),
        audio_path: Some(script.audio_path->0@),
        caption_path: Some(script.srt_file->0@),
        image_manifest: Some(image_stage(script.track@, runs_of(script.image_runs@))->Ok_0),
        video_path: Some(script.video_path->0@),
    }
}

/// Drives the run `run_id` through its stages in their fixed order, each
/// with its outcome from the script. The run ends with the failure of the
/// first stage that fails; no later stage is entered then.
pub fn run_tweet_cycle(run_id: i64, script: RunScript) -> (r: Result<
    TweetCycle<Complete>,
    StageError,
>)
    ensures
        match r {
            Ok(done) => first_failure(script) is None && done.id() == run_id
                && done.stage().context() == gathered(script),
            Err(e) => first_failure(script) == Some(e),
        },
{
    let RunScript {
        source,
        summary,
        message,
        audio_path,
        transcribed,
        srt_file,
        track,
        image_runs,
        video_path,
    } = script;
    let selected = match TweetCycle::new(run_id).select_user_from(source) {
        Ok(next) => next,
        Err(e) => {
            return Err(e);
        },
    };
    let summary_text: Option<&str> = match &summary {
        Some(text) => Some(text.as_str()),
        None => None,
    };
    let with_topic = match selected.generate_topic(summary_text) {
        Ok(next) => next,
        Err(e) => {
            return Err(e);
        },
    };
    let with_text = match with_topic.generate_tweet_text(message) {
        Ok(next) => next,
        Err(e) => {
            return Err(e);
        },
    };
    let with_audio = match with_text.generate_audio(audio_path) {
        Ok(next) => next,
        Err(e) => {
            return Err(e);
        },
    };
    let with_captions = match with_audio.generate_subtitles(transcribed, srt_file) {
        Ok(next) => next,
        Err(e) => {
            return Err(e);
        },
    };
    let with_images = match with_captions.generate_images(track.as_str(), &image_runs) {
        Ok(next) => next,
        Err(e) => {
            return Err(e);
        },
    };
    let with_video = match with_images.create_video_from_images(video_path) {
        Ok(next) => next,
        Err(e) => {
            return Err(e);
        },
    };
    Ok(with_video.complete())
}

/// Seconds between the end of one run and the start of the next.
pub const RUN_DELAY_SECS: u64 = 5;

/// What a failure is called in a report.
pub open spec fn failure_text(error: StageError) -> Seq<char> {
    match error {
        StageError::SourceUnavailable => "source selection: no source is available"@,
        StageError::GenerationFailed => "text generation: the generation failed"@,
        StageError::SynthesisFailed => "speech synthesis: the synthesis failed"@,
        StageError::TranscriptionFailed => "captions: the transcription failed"@,
        StageError::FormatError => "captions: the track could not be written"@,
        StageError::MalformedTimestamp => "images: the caption track has a malformed timestamp"@,
        StageError::ImageGenerationFailed => "images: an image could not be generated"@,
        StageError::CompositionFailed => "video: the composition failed"@,
    }
}

/// Names the stage that failed, and why.
pub fn describe(error: StageError) -> (text: &'static str)
    ensures
        text@ == failure_text(error),
{
    match error {
        StageError::SourceUnavailable => "source selection: no source is available",
        StageError::GenerationFailed => "text generation: the generation failed",
        StageError::SynthesisFailed => "speech synthesis: the synthesis failed",
        StageError::TranscriptionFailed => "captions: the transcription failed",
        StageError::FormatError => "captions: the track could not be written",
        StageError::MalformedTimestamp => "images: the caption track has a malformed timestamp",
        StageError::ImageGenerationFailed => "images: an image could not be generated",
        StageError::CompositionFailed => "video: the composition failed",
    }
}

/// What the loop does between two runs.
#[derive(Debug, Clone, PartialEq, Eq)]
pub struct NextRun {
    /// What is logged of the run that ended.
    pub report: String,
    /// Seconds to wait before the next run starts.
    pub delay_secs: u64,
}

/// What is logged of a run that ended with `failure`, or without one.
pub open spec fn run_report(failure: Option<StageError>) -> Seq<char> {
    match failure {
        Some(error) => "run failed at "@ + failure_text(error),
        None => "run complete"@,
    }
}

/// Decides what the loop does after a run: whether the run failed or not,
/// it is reported, and the next run starts after the fixed delay.
pub fn after_run(failure: Option<StageError>) -> (next: NextRun)
    ensures
        next.report@ == run_report(failure),
        next.delay_secs == RUN_DELAY_SECS,
{
    let report = match failure {
        Some(error) => {
            let mut v = chars_of("run failed at ");
            extend(&mut v, &chars_of(describe(error)));
            string_of(&v)
        },
        None => "run complete".to_owned(),
    };
    NextRun { report, delay_secs: RUN_DELAY_SECS }
}

/// Over any number of steps, each of which keeps what was gathered, what
/// was gathered first is still there at the end, unchanged.
pub proof fn lemma_nothing_is_overwritten(contexts: Seq<StageContext>)
    requires
        contexts.len() > 0,
        forall|i: int|
            0 <= i < contexts.len() - 1 ==> extends(#[trigger] contexts[i], contexts[i + 1]),
    ensures
        forall|i: int|
            0 <= i < contexts.len() ==> extends(#[trigger] contexts[i], contexts.last()),
    decreases contexts.len(),
{
    if contexts.len() > 1 {
        let shorter = contexts.drop_last();
        assert forall|i: int| 0 <= i < shorter.len() - 1 implies extends(
            #[trigger] shorter[i],
            shorter[i + 1],
        ) by {
            assert(extends(contexts[i], contexts[i + 1]));
        }
        lemma_nothing_is_overwritten(shorter);
        assert forall|i: int| 0 <= i < contexts.len() implies extends(
            #[trigger] contexts[i],
            contexts.last(),
        ) by {
            if i < contexts.len() - 1 {
                assert(extends(shorter[i], shorter.last()));
                assert(extends(contexts[contexts.len() - 2], contexts[contexts.len() - 2 + 1]));
                lemma_extends_is_transitive(contexts[i], shorter.last(), contexts.last());
            }
        }
    }
}

} // verus!
