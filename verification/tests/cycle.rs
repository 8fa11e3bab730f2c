use tweet_cycle::cycle::{after_run, describe, run_tweet_cycle, RunScript, TweetCycle, RUN_DELAY_SECS};
use tweet_cycle::error::{PollError, StageError};
use tweet_cycle::images::ManifestEntry;
use tweet_cycle::polling::PollRun;
use tweet_cycle::sources::user_ids;

const TRACK: &str = "1\n00:00:01,000 --> 00:00:03,000\nrocket launch\n\n2\n00:00:03,000 --> 00:00:04,000\norca\n";

fn done(data: &str) -> PollRun {
    PollRun { outcome: Some(Ok(data.to_string())), reads: 1 }
}

fn source() -> Option<(String, String)> {
    Some(("ai".to_string(), "1605".to_string()))
}

fn script() -> RunScript {
    RunScript {
        source: source(),
        summary: Some("Topic: rockets".to_string()),
        message: Some("a short message".to_string()),
        audio_path: Some("./tmp/9/tts.mp3".to_string()),
        transcribed: true,
        srt_file: Some("./tmp/9/final_srt.srt".to_string()),
        track: TRACK.to_string(),
        image_runs: vec![done("aGk="), done("eW8=")],
        video_path: Some("./tmp/9/final_output.mp4".to_string()),
    }
}

#[test]
fn run_without_a_topic_line_goes_on_with_the_fallback_topic() {
    let selected = TweetCycle::new(9).select_user_from(source()).unwrap();
    assert_eq!(selected.state().section, "ai");
    assert_eq!(selected.state().user_id, "1605");
    let with_topic = selected.generate_topic(Some("These tweets are about many things.")).unwrap();
    assert_eq!(with_topic.state().topic, "NoTopicFound");
    let with_text = with_topic.generate_tweet_text(Some("still writes".to_string())).unwrap();
    assert_eq!(with_text.state().topic, "NoTopicFound");
    assert_eq!(with_text.state().tweet_text, "still writes");
    assert_eq!(with_text.run_id(), 9);
}

#[test]
fn stages_gather_in_order_and_keep_what_they_have() {
    let cycle = TweetCycle::new(1740592533);
    assert_eq!(cycle.run_id(), 1740592533);
    let cycle = cycle.select_user_from(source()).unwrap();
    let cycle = cycle.generate_topic(Some("Topic: rockets")).unwrap();
    assert_eq!((cycle.state().section.as_str(), cycle.state().user_id.as_str()), ("ai", "1605"));
    assert_eq!(cycle.state().topic, "rockets");
    let cycle = cycle.generate_tweet_text(Some("msg".to_string())).unwrap();
    let cycle = cycle.generate_audio(Some("a.mp3".to_string())).unwrap();
    assert_eq!(cycle.state().tweet_text, "msg");
    assert_eq!(cycle.state().audio_path, "a.mp3");
    let cycle = cycle.generate_subtitles(true, Some("t.srt".to_string())).unwrap();
    assert_eq!(cycle.state().srt_file, "t.srt");
    let cycle = cycle.generate_images(TRACK, &vec![done("aGk="), done("eW8=")]).unwrap();
    assert_eq!(cycle.state().image_manifest.len(), 3);
    assert_eq!(
        cycle.state().image_manifest[0],
        ManifestEntry { file: "word_0_0.png".to_string(), duration_ms: Some(1000) }
    );
    let cycle = cycle.create_video_from_images(Some("v.mp4".to_string())).unwrap();
    let manifest = cycle.state().image_manifest.clone();
    let done = cycle.complete();
    let state = done.state();
    assert_eq!(done.run_id(), 1740592533);
    assert_eq!(state.section, "ai");
    assert_eq!(state.user_id, "1605");
    assert_eq!(state.topic, "rockets");
    assert_eq!(state.tweet_text, "msg");
    assert_eq!(state.audio_path, "a.mp3");
    assert_eq!(state.srt_file, "t.srt");
    assert_eq!(state.image_manifest, manifest);
    assert_eq!(state.video_path, "v.mp4");
}

#[test]
fn each_stage_fails_with_its_own_failure() {
    assert_eq!(TweetCycle::new(1).select_user_from(None).unwrap_err(), StageError::SourceUnavailable);
    let selected = || TweetCycle::new(1).select_user_from(source()).unwrap();
    assert_eq!(selected().generate_topic(None).unwrap_err(), StageError::GenerationFailed);
    let with_topic = || selected().generate_topic(Some("Topic: t")).unwrap();
    assert_eq!(with_topic().generate_tweet_text(None).unwrap_err(), StageError::GenerationFailed);
    let with_text = || with_topic().generate_tweet_text(Some("m".to_string())).unwrap();
    assert_eq!(with_text().generate_audio(None).unwrap_err(), StageError::SynthesisFailed);
    let with_audio = || with_text().generate_audio(Some("a".to_string())).unwrap();
    assert_eq!(
        with_audio().generate_subtitles(false, Some("s".to_string())).unwrap_err(),
        StageError::TranscriptionFailed
    );
    assert_eq!(with_audio().generate_subtitles(false, None).unwrap_err(), StageError::TranscriptionFailed);
    assert_eq!(with_audio().generate_subtitles(true, None).unwrap_err(), StageError::FormatError);
    let with_captions = || with_audio().generate_subtitles(true, Some("s".to_string())).unwrap();
    assert_eq!(
        with_captions().generate_images("1\n1:2:3 --> 00:00:02,000\nx\n", &vec![]).unwrap_err(),
        StageError::MalformedTimestamp
    );
    assert_eq!(
        with_captions().generate_images(TRACK, &vec![done("aGk=")]).unwrap_err(),
        StageError::ImageGenerationFailed
    );
    let failed = PollRun { outcome: Some(Err(PollError::RemoteJobFailed("FAILED".to_string()))), reads: 1 };
    assert_eq!(
        with_captions().generate_images(TRACK, &vec![done("aGk="), failed]).unwrap_err(),
        StageError::ImageGenerationFailed
    );
    let with_images = || with_captions().generate_images(TRACK, &vec![done("aGk="), done("eW8=")]).unwrap();
    assert_eq!(with_images().create_video_from_images(None).unwrap_err(), StageError::CompositionFailed);
}

#[test]
fn track_without_images_needs_no_job() {
    let cycle = TweetCycle::new(1)
        .select_user_from(source())
        .unwrap()
        .generate_topic(Some(""))
        .unwrap()
        .generate_tweet_text(Some(String::new()))
        .unwrap()
        .generate_audio(Some(String::new()))
        .unwrap()
        .generate_subtitles(true, Some(String::new()))
        .unwrap()
        .generate_images("", &vec![])
        .unwrap();
    assert!(cycle.state().image_manifest.is_empty());
}

#[test]
fn random_selection_starts_the_run_with_a_known_account() {
    for _ in 0..50 {
        let cycle = TweetCycle::new(3).select_user().unwrap();
        let state = cycle.state();
        assert!(user_ids(&state.section).unwrap().contains(&state.user_id.as_str()));
        assert_eq!(cycle.run_id(), 3);
    }
}

#[test]
fn scripted_run_completes_with_all_it_gathered() {
    let done = run_tweet_cycle(9, script()).unwrap();
    assert_eq!(done.run_id(), 9);
    assert_eq!(done.state().topic, "rockets");
    assert_eq!(done.state().video_path, "./tmp/9/final_output.mp4");
    assert_eq!(done.state().image_manifest.len(), 3);
}

#[test]
fn scripted_run_ends_at_the_first_stage_that_fails() {
    let fails = |change: fn(&mut RunScript)| {
        let mut s = script();
        change(&mut s);
        run_tweet_cycle(9, s).unwrap_err()
    };
    assert_eq!(fails(|s| s.source = None), StageError::SourceUnavailable);
    assert_eq!(fails(|s| s.summary = None), StageError::GenerationFailed);
    assert_eq!(fails(|s| s.message = None), StageError::GenerationFailed);
    assert_eq!(fails(|s| s.audio_path = None), StageError::SynthesisFailed);
    assert_eq!(fails(|s| s.transcribed = false), StageError::TranscriptionFailed);
    assert_eq!(fails(|s| s.srt_file = None), StageError::FormatError);
    assert_eq!(fails(|s| s.track = "1\nbad --> worse\nx".to_string()), StageError::MalformedTimestamp);
    assert_eq!(fails(|s| s.image_runs.clear()), StageError::ImageGenerationFailed);
    assert_eq!(fails(|s| s.video_path = None), StageError::CompositionFailed);
    assert_eq!(
        fails(|s| {
            s.video_path = None;
            s.audio_path = None;
            s.image_runs.clear();
        }),
        StageError::SynthesisFailed
    );
    assert_eq!(
        fails(|s| {
            s.summary = Some("no marker".to_string());
            s.video_path = None;
        }),
        StageError::CompositionFailed
    );
}

#[test]
fn loop_reports_every_run_and_waits_the_fixed_delay() {
    let next = after_run(None);
    assert_eq!(next.report, "run complete");
    assert_eq!(next.delay_secs, 5);
    let next = after_run(Some(StageError::SynthesisFailed));
    assert_eq!(next.report, "run failed at speech synthesis: the synthesis failed");
    assert_eq!(next.delay_secs, RUN_DELAY_SECS);
    let all = [
        StageError::SourceUnavailable,
        StageError::GenerationFailed,
        StageError::SynthesisFailed,
        StageError::TranscriptionFailed,
        StageError::FormatError,
        StageError::MalformedTimestamp,
        StageError::ImageGenerationFailed,
        StageError::CompositionFailed,
    ];
    let texts: std::collections::BTreeSet<&str> = all.iter().map(|e| describe(*e)).collect();
    assert_eq!(texts.len(), all.len());
}
