use tweet_cycle::video::{
    add_subtitles_to_video, brainrot, convert_srt_to_ass, create_video_from_filelist_and_audio,
    download_file_name, generate_subtitles, get_video_duration, output_dir,
    run_docker_transcription, save_tts_audio, SubtitlePaths,
};

#[test]
fn slideshow_is_composed_and_then_captioned() {
    let plan = create_video_from_filelist_and_audio(1740592533, 1740592600, "./tmp/1740592533/tts.mp3");
    assert_eq!(plan.output_file, "./tmp/1740592533/1740592600.mp4");
    assert_eq!(plan.final_output, "./tmp/1740592533/final_output.mp4");
    assert_eq!(
        plan.compose,
        vec![
            "-y", "-f", "concat", "-safe", "0", "-i", "./tmp/1740592533/filelist.txt", "-i",
            "./tmp/1740592533/tts.mp3", "-i", "./tmp/1740592533/tts.ass", "-c:v", "libx264", "-vf",
            "pad=ceil(iw/2)*2:ceil(ih/2)*2", "-pix_fmt", "yuv420p", "-c:a", "aac", "-loglevel",
            "error", "./tmp/1740592533/1740592600.mp4",
        ]
    );
    assert_eq!(
        plan.burn,
        vec![
            "-y", "-i", "./tmp/1740592533/1740592600.mp4", "-vf", "ass=./tmp/1740592533/tts.ass",
            "-c:a", "copy", "-loglevel", "error", "./tmp/1740592533/final_output.mp4",
        ]
    );
}

#[test]
fn captions_are_laid_over_a_video() {
    assert_eq!(
        add_subtitles_to_video("in.mp4", "subs.srt", "out.mp4"),
        vec!["-i", "in.mp4", "-vf", "subtitles=subs.srt", "-c:a", "copy", "out.mp4"]
    );
    assert_eq!(convert_srt_to_ass("a.srt", "a.ass"), vec!["-i", "a.srt", "a.ass"]);
}

#[test]
fn caption_stage_keeps_its_files_under_the_run() {
    assert_eq!(
        generate_subtitles("42"),
        SubtitlePaths {
            raw_track: "./tmp/42/tts.srt".to_string(),
            normalized_track: "./tmp/42/final_srt.srt".to_string(),
            styled_track: "./tmp/42/tts.ass".to_string(),
        }
    );
    assert_eq!(save_tts_audio("42"), "./tmp/42/tts.mp3");
    assert_eq!(output_dir("42"), "./tmp/42");
}

#[test]
fn transcription_runs_in_its_container() {
    assert_eq!(
        run_docker_transcription("42", "/home/me/project", "./tmp/42/tts.mp3"),
        vec![
            "run", "-it", "-v", "/home/me/project:/app", "whisperx:large-v3-en", "--", "--device",
            "cpu", "--compute_type", "float32", "--highlight_words", "True", "--output_format",
            "srt", "--output_dir", "./tmp/42", "./tmp/42/tts.mp3",
        ]
    );
}

#[test]
fn two_videos_are_combined_side_by_side_or_stacked() {
    let args = brainrot("a.mp4", "slime.mp4", "v", "12.5", "brainrot_a.mp4").unwrap();
    assert_eq!(
        args,
        vec![
            "-i", "a.mp4", "-stream_loop", "-1", "-i", "slime.mp4", "-filter_complex",
            "[0:v]scale=1080:960,setsar=1[vid1]; [1:v]scale=1080:960,setsar=1[vid2]; [vid1][vid2]vstack=inputs=2[v]",
            "-map", "[v]", "-map", "0:a?", "-t", "12.5", "-s", "1080x1920", "-y", "brainrot_a.mp4",
        ]
    );
    let args = brainrot("a.mp4", "b.mp4", "h", "3", "o.mp4").unwrap();
    assert_eq!(
        args[7],
        "[0:v]scale=540:1920,setsar=1[vid1]; [1:v]scale=540:1920,setsar=1[vid2]; [vid1][vid2]hstack=inputs=2[v]"
    );
    for bad in ["", "x", "H", "hv", " v"] {
        assert_eq!(brainrot("a.mp4", "b.mp4", bad, "3", "o.mp4"), None, "{bad:?}");
    }
}

#[test]
fn probed_duration_is_the_trimmed_output() {
    assert_eq!(get_video_duration("12.345000\n"), Some("12.345000".to_string()));
    assert_eq!(get_video_duration("  7 "), Some("7".to_string()));
    assert_eq!(get_video_duration(""), None);
    assert_eq!(get_video_duration(" \n\t"), None);
}

#[test]
fn downloaded_video_is_named_by_its_address() {
    assert_eq!(
        download_file_name("https://host/path/clip.mp4"),
        "https___host_path_clip.mp4.mp4"
    );
    assert_eq!(download_file_name(""), ".mp4");
}
