use tweet_cycle::captions::SubtitleLine;
use tweet_cycle::error::{PollError, StageError};
use tweet_cycle::images::{
    build_manifest, collect_images, create_images_for_subtitles, decode_image, plan_images,
    render_manifest, run_directory, run_file, ImageJob, ManifestEntry, WORDS_PER_LINE,
};
use tweet_cycle::polling::PollRun;

fn line(start: u64, end: u64, text: &str) -> SubtitleLine {
    SubtitleLine { start, end, text: text.to_string() }
}

#[test]
fn two_lines_with_one_image_each_give_three_entries() {
    let lines = vec![line(1000, 3000, "noice orca"), line(3000, 4500, "rocket")];
    let plan = create_images_for_subtitles(1740592533, &lines);
    assert_eq!(plan.jobs.len(), 2);
    assert_eq!(
        plan.manifest,
        vec![
            ManifestEntry { file: "word_0_0.png".to_string(), duration_ms: Some(1000) },
            ManifestEntry { file: "word_1_1.png".to_string(), duration_ms: Some(1500) },
            ManifestEntry { file: "word_1_1.png".to_string(), duration_ms: None },
        ]
    );
    assert_eq!(
        plan.filelist,
        "file 'word_0_0.png'\nduration 1\nfile 'word_1_1.png'\nduration 1.5\nfile 'word_1_1.png'\n"
    );
    assert_eq!(plan.folder, "./tmp/1740592533");
    assert_eq!(plan.filelist_path, "./tmp/1740592533/filelist.txt");
}

#[test]
fn each_line_gives_its_first_word_one_share_of_its_time() {
    let lines = vec![line(0, 2000, "  three little   words ")];
    let jobs = plan_images(&lines, WORDS_PER_LINE);
    assert_eq!(
        jobs,
        vec![ImageJob {
            line_index: 0,
            image_index: 0,
            prompt: "three".to_string(),
            file_name: "word_0_0.png".to_string(),
            duration_ms: 666,
        }]
    );
    let jobs = plan_images(&lines, 2);
    assert_eq!(jobs.len(), 2);
    assert_eq!(jobs[1].prompt, "little");
    assert_eq!(jobs[1].file_name, "word_0_1.png");
    assert_eq!(jobs[1].duration_ms, 666);
    assert_eq!(plan_images(&lines, 5).len(), 3);
    assert_eq!(plan_images(&lines, 0).len(), 0);
}

#[test]
fn lines_that_do_not_last_or_say_nothing_get_no_image() {
    let lines = vec![
        line(1000, 1000, "instant"),
        line(2000, 1000, "backwards"),
        line(0, 500, "   "),
        line(0, 500, ""),
        line(500, 900, "kept"),
    ];
    let jobs = plan_images(&lines, WORDS_PER_LINE);
    assert_eq!(jobs.len(), 1);
    assert_eq!(jobs[0].line_index, 4);
    assert_eq!(jobs[0].image_index, 0);
    assert_eq!(jobs[0].file_name, "word_4_0.png");
    assert_eq!(jobs[0].duration_ms, 400);
}

#[test]
fn closing_entry_names_the_last_image_that_was_made() {
    let lines = vec![line(0, 1000, "first"), line(1000, 1000, "skipped")];
    let plan = create_images_for_subtitles(7, &lines);
    assert_eq!(plan.manifest.len(), 2);
    assert_eq!(plan.manifest[1], ManifestEntry { file: "word_0_0.png".to_string(), duration_ms: None });
}

#[test]
fn no_image_gives_an_empty_manifest() {
    let plan = create_images_for_subtitles(-3, &vec![]);
    assert!(plan.jobs.is_empty());
    assert!(plan.manifest.is_empty());
    assert_eq!(plan.filelist, "");
    assert_eq!(plan.folder, "./tmp/-3");
    assert_eq!(build_manifest(&vec![]), vec![]);
}

#[test]
fn durations_are_written_in_seconds() {
    let entry = |ms: u64| {
        render_manifest(&vec![ManifestEntry { file: "f".to_string(), duration_ms: Some(ms) }])
    };
    assert_eq!(entry(2000), "file 'f'\nduration 2\n");
    assert_eq!(entry(0), "file 'f'\nduration 0\n");
    assert_eq!(entry(1500), "file 'f'\nduration 1.5\n");
    assert_eq!(entry(1050), "file 'f'\nduration 1.05\n");
    assert_eq!(entry(666), "file 'f'\nduration 0.666\n");
    assert_eq!(entry(7), "file 'f'\nduration 0.007\n");
    assert_eq!(entry(12_340), "file 'f'\nduration 12.34\n");
}

#[test]
fn run_files_live_under_the_run_directory() {
    assert_eq!(run_directory(1739943571), "./tmp/1739943571");
    assert_eq!(run_file(1739943571, "tts.mp3"), "./tmp/1739943571/tts.mp3");
}

#[test]
fn image_is_decoded_from_base64() {
    assert_eq!(decode_image("aGVsbG8="), Ok(b"hello".to_vec()));
    assert_eq!(decode_image(""), Ok(vec![]));
    assert_eq!(decode_image("not base64!"), Err(StageError::ImageGenerationFailed));
    assert_eq!(decode_image("aGVsbG8"), Err(StageError::ImageGenerationFailed));
}

#[test]
fn stage_has_all_images_or_none() {
    let done = |data: &str| PollRun { outcome: Some(Ok(data.to_string())), reads: 1 };
    assert_eq!(
        collect_images(&vec![done("aGk="), done("eW8=")]),
        Ok(vec![b"hi".to_vec(), b"yo".to_vec()])
    );
    assert_eq!(collect_images(&vec![]), Ok(vec![]));
    let timed_out = PollRun { outcome: Some(Err(PollError::PollingTimedOut)), reads: 30 };
    assert_eq!(
        collect_images(&vec![done("aGk="), timed_out]),
        Err(StageError::ImageGenerationFailed)
    );
    let open = PollRun { outcome: None, reads: 2 };
    assert_eq!(collect_images(&vec![open, done("aGk=")]), Err(StageError::ImageGenerationFailed));
    assert_eq!(collect_images(&vec![done("???")]), Err(StageError::ImageGenerationFailed));
}
