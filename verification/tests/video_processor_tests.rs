use dash_pipeline::command::{Action, CommandLine, FailureReason, Report};
use dash_pipeline::video_processor::{
    EncodeDecision, Encoder, Origin, TranscodeStage, VideoProcessor,
};

fn exited(success: bool, stdout: &str) -> Report {
    Report::Exited { success, stdout: stdout.to_string(), stderr: String::new() }
}

fn command(program: &str, args: &[&str]) -> Action {
    Action::Run(CommandLine {
        program: program.to_string(),
        args: args.iter().map(|a| a.to_string()).collect(),
    })
}

/// Runs the stage on scripted reports and returns the stages it passed
/// through, the first included, with the actions it handed out.
fn run(reports: &[Report]) -> (Vec<TranscodeStage>, Vec<Action>) {
    let processor = VideoProcessor::new("in/clip.mp4");
    let mut stage = TranscodeStage::EnsureDir;
    let mut stages = vec![stage];
    let mut actions = vec![processor.action("in/clip/av1", stage)];
    for report in reports {
        let (next, action) = processor.process("in/clip/av1", stage, report);
        stage = next;
        stages.push(next);
        actions.push(action);
    }
    (stages, actions)
}

#[test]
fn file_name_is_the_last_part_of_the_path() {
    assert_eq!(VideoProcessor::new("a/b/clip.mp4").get_file_name(), "clip.mp4");
    assert_eq!(VideoProcessor::new("clip.mp4").get_file_name(), "clip.mp4");
    assert_eq!(VideoProcessor::new("/clip.mp4").get_file_name(), "clip.mp4");
    assert_eq!(VideoProcessor::new("a/b/").get_file_name(), "b");
    assert_eq!(VideoProcessor::new("a/b/.").get_file_name(), "b");
    assert_eq!(VideoProcessor::new("").get_file_name(), "");
    assert_eq!(VideoProcessor::new("a/b/clip.mp4").video_path(), "a/b/clip.mp4");
}

#[test]
fn path_without_a_final_part_has_no_file_name() {
    for path in ["/videos/..", "..", "a/..", ".", "./", "/", "//", ""] {
        assert_eq!(VideoProcessor::new(path).get_file_name(), "", "on {:?}", path);
    }
}

#[test]
fn file_name_agrees_with_std_paths() {
    let paths = [
        "a/b/clip.mp4", "clip.mp4", "/clip.mp4", "a/b/", "a/b//", "a/b/.", "a/b/./", "a/./b",
        "/videos/..", "a/..", "..", ".", "./", "./.", "/", "//", "", "...", "a/...", ".a", "a.",
        "foo.txt/.//", "/.", "./x", "x/.", "a b/c d", "é/ü.mp4",
    ];
    for path in paths {
        let expected = std::path::Path::new(path)
            .file_name()
            .unwrap_or_default()
            .to_string_lossy()
            .to_string();
        assert_eq!(VideoProcessor::new(path).get_file_name(), expected, "on {:?}", path);
    }
}

#[test]
fn output_keeps_the_name_of_the_source() {
    let processor = VideoProcessor::new("in/clip.mp4");
    assert_eq!(processor.output_path("in/clip/av1"), "in/clip/av1/clip.mp4");
}

#[test]
fn codec_is_detected_whatever_its_case_and_the_space_around_it() {
    for printed in ["av1", "av1\n", "  AV1\r\n", "Av1", "\tav1 "] {
        assert_eq!(VideoProcessor::detect(&exited(true, printed)), EncodeDecision::AlreadyTarget);
        assert!(VideoProcessor::is_av1_encoded(&exited(true, printed)));
    }
    for printed in ["h264\n", "hevc", "", "av1x", "a v1", "av01"] {
        assert_eq!(VideoProcessor::detect(&exited(true, printed)), EncodeDecision::NeedsTranscode);
        assert!(!VideoProcessor::is_av1_encoded(&exited(true, printed)));
    }
}

#[test]
fn failed_codec_query_leads_to_an_encode() {
    assert_eq!(VideoProcessor::detect(&Report::SpawnFailed), EncodeDecision::NeedsTranscode);
    assert_eq!(VideoProcessor::detect(&Report::IoFailed), EncodeDecision::NeedsTranscode);
    let (stages, _) = run(&[Report::Done, Report::SpawnFailed]);
    assert_eq!(stages[2], TranscodeStage::PrimaryEncode);
}

#[test]
fn packets_are_counted_from_what_the_probe_printed() {
    assert_eq!(VideoProcessor::count_packets(&exited(true, "250\n")), 250);
    assert_eq!(VideoProcessor::count_packets(&exited(true, " 1 ")), 1);
    assert_eq!(VideoProcessor::count_packets(&exited(true, "0\n")), 0);
    assert_eq!(VideoProcessor::count_packets(&exited(true, "")), 0);
    assert_eq!(VideoProcessor::count_packets(&exited(true, "N/A")), 0);
    assert_eq!(VideoProcessor::count_packets(&exited(true, "12,")), 0);
    assert_eq!(VideoProcessor::count_packets(&exited(true, "-4")), -4);
    assert_eq!(VideoProcessor::count_packets(&exited(true, "99999999999")), i32::MAX);
    assert_eq!(VideoProcessor::count_packets(&exited(true, "3000000000\n")), i32::MAX);
    assert_eq!(VideoProcessor::count_packets(&exited(true, "-3000000000\n")), i32::MIN);
    assert_eq!(VideoProcessor::count_packets(&exited(false, "17")), 17);
    assert_eq!(VideoProcessor::count_packets(&Report::SpawnFailed), 0);
}

#[test]
fn file_without_audio_is_valid() {
    assert_eq!(VideoProcessor::check_streams(1, &exited(true, "0\n")), Ok(()));
    assert_eq!(VideoProcessor::check_streams(250, &exited(true, "")), Ok(()));
    assert_eq!(VideoProcessor::check_streams(250, &exited(false, "")), Ok(()));
    assert_eq!(VideoProcessor::check_streams(250, &exited(true, "400\n")), Ok(()));
}

#[test]
fn file_without_video_is_rejected_whatever_the_audio() {
    for audio in [exited(true, "400\n"), exited(true, "0"), Report::SpawnFailed] {
        assert_eq!(VideoProcessor::check_streams(0, &audio), Err(FailureReason::NoVideoStream));
        assert_eq!(VideoProcessor::check_streams(-1, &audio), Err(FailureReason::NoVideoStream));
    }
}

#[test]
fn audio_probe_that_did_not_run_does_not_fail_validation() {
    assert_eq!(VideoProcessor::check_streams(10, &Report::SpawnFailed), Ok(()));
    assert_eq!(VideoProcessor::check_streams(250, &Report::IoFailed), Ok(()));
    let (stages, _) = run(&[
        Report::Done,
        exited(true, "h264"),
        exited(true, ""),
        exited(true, "250\n"),
        Report::SpawnFailed,
    ]);
    assert_eq!(stages[5], TranscodeStage::Ready(Origin::Encoded(Encoder::Primary)));
}

#[test]
fn count_too_large_for_the_machine_is_still_a_count() {
    let (stages, _) = run(&[
        Report::Done,
        exited(true, "h264"),
        exited(true, ""),
        exited(true, "3000000000\n"),
        exited(true, "0\n"),
    ]);
    assert_eq!(
        stages[4],
        TranscodeStage::ProbeAudio { encoder: Encoder::Primary, video_packets: i32::MAX }
    );
    assert_eq!(stages[5], TranscodeStage::Ready(Origin::Encoded(Encoder::Primary)));
}

#[test]
fn target_codec_is_told_from_the_lower_case_name() {
    assert!(VideoProcessor::is_target_codec("av1"));
    for codec in ["AV1", "av1 ", "", "av", "hevc"] {
        assert!(!VideoProcessor::is_target_codec(codec), "{:?}", codec);
    }
}

#[test]
fn failing_primary_encoder_is_followed_by_the_fallback() {
    assert_eq!(
        VideoProcessor::transcode_to_av1(Encoder::Primary, &exited(false, "")),
        TranscodeStage::FallbackEncode
    );
    assert_eq!(
        VideoProcessor::transcode_to_av1(Encoder::Primary, &Report::SpawnFailed),
        TranscodeStage::FallbackEncode
    );
    assert_eq!(
        VideoProcessor::transcode_to_av1(Encoder::Primary, &exited(true, "")),
        TranscodeStage::ProbeVideo(Encoder::Primary)
    );
    assert_eq!(
        VideoProcessor::transcode_to_av1(Encoder::Fallback, &exited(true, "")),
        TranscodeStage::ProbeVideo(Encoder::Fallback)
    );
}

#[test]
fn encode_fails_only_when_both_encoders_fail() {
    assert_eq!(
        VideoProcessor::transcode_to_av1(Encoder::Fallback, &exited(false, "")),
        TranscodeStage::Failed(FailureReason::EncodeFailed)
    );
    let (stages, actions) = run(&[
        Report::Done,
        exited(true, "h264\n"),
        exited(false, ""),
        Report::SpawnFailed,
    ]);
    assert_eq!(
        stages,
        vec![
            TranscodeStage::EnsureDir,
            TranscodeStage::Detect,
            TranscodeStage::PrimaryEncode,
            TranscodeStage::FallbackEncode,
            TranscodeStage::Failed(FailureReason::EncodeFailed),
        ]
    );
    assert_eq!(
        actions[3],
        command(
            "ffmpeg",
            &[
                "-i", "in/clip.mp4", "-c:v", "libaom-av1", "-crf", "30", "-b:v", "0", "-c:a",
                "copy", "in/clip/av1/clip.mp4",
            ]
        )
    );
    assert_eq!(
        actions[4],
        Action::Fail { reason: FailureReason::EncodeFailed, diagnostic: String::new() }
    );
}

#[test]
fn fallback_output_is_validated_and_accepted() {
    let (stages, actions) = run(&[
        Report::IoFailed,
        exited(true, "hevc\n"),
        exited(false, ""),
        exited(true, ""),
        exited(true, "120\n"),
        exited(true, "0\n"),
    ]);
    assert_eq!(
        stages,
        vec![
            TranscodeStage::EnsureDir,
            TranscodeStage::Detect,
            TranscodeStage::PrimaryEncode,
            TranscodeStage::FallbackEncode,
            TranscodeStage::ProbeVideo(Encoder::Fallback),
            TranscodeStage::ProbeAudio { encoder: Encoder::Fallback, video_packets: 120 },
            TranscodeStage::Ready(Origin::Encoded(Encoder::Fallback)),
        ]
    );
    assert_eq!(actions[6], Action::Succeed { output: "in/clip/av1/clip.mp4".to_string() });
}

#[test]
fn primary_output_without_video_fails_without_fallback() {
    let (stages, _) = run(&[
        Report::Done,
        exited(true, "h264"),
        exited(true, ""),
        exited(true, "0\n"),
        exited(true, "33\n"),
    ]);
    assert_eq!(stages[3], TranscodeStage::ProbeVideo(Encoder::Primary));
    assert_eq!(
        stages[4],
        TranscodeStage::ProbeAudio { encoder: Encoder::Primary, video_packets: 0 }
    );
    assert_eq!(stages[5], TranscodeStage::Failed(FailureReason::NoVideoStream));
}

#[test]
fn target_codec_is_copied_without_encode_or_validation() {
    let (stages, actions) = run(&[Report::Done, exited(true, "av1\n"), Report::Done]);
    assert_eq!(
        stages,
        vec![
            TranscodeStage::EnsureDir,
            TranscodeStage::Detect,
            TranscodeStage::Copy,
            TranscodeStage::Ready(Origin::Copied),
        ]
    );
    assert_eq!(
        actions[2],
        Action::CopyFile {
            from: "in/clip.mp4".to_string(),
            to: "in/clip/av1/clip.mp4".to_string()
        }
    );
    assert_eq!(actions[3], Action::Succeed { output: "in/clip/av1/clip.mp4".to_string() });
    assert!(actions.iter().all(|a| match a {
        Action::Run(line) => line.program == "ffprobe" && line.args[3] == "v:0"
            && line.args[5] == "stream=codec_name",
        _ => true,
    }));
}

#[test]
fn failed_copy_is_an_io_failure() {
    let (stages, actions) = run(&[Report::Done, exited(true, "av1"), Report::IoFailed]);
    assert_eq!(stages[3], TranscodeStage::Failed(FailureReason::IOFailure));
    assert_eq!(
        actions[3],
        Action::Fail { reason: FailureReason::IOFailure, diagnostic: String::new() }
    );
}

#[test]
fn ended_stage_stays_as_it_is() {
    let processor = VideoProcessor::new("in/clip.mp4");
    for stage in [
        TranscodeStage::Ready(Origin::Copied),
        TranscodeStage::Ready(Origin::Encoded(Encoder::Primary)),
        TranscodeStage::Failed(FailureReason::NoVideoStream),
    ] {
        for report in [Report::Done, Report::SpawnFailed, exited(true, "av1")] {
            assert_eq!(processor.process("d", stage, &report).0, stage);
        }
    }
}

#[test]
fn commands_of_the_stage() {
    let processor = VideoProcessor::new("in/clip.mp4");
    let dir = "in/clip/av1";
    assert_eq!(
        processor.action(dir, TranscodeStage::EnsureDir),
        Action::EnsureDir(dir.to_string())
    );
    assert_eq!(
        processor.action(dir, TranscodeStage::Detect),
        command(
            "ffprobe",
            &[
                "-v", "error", "-select_streams", "v:0", "-show_entries", "stream=codec_name",
                "-of", "default=noprint_wrappers=1:nokey=1", "in/clip.mp4",
            ]
        )
    );
    assert_eq!(
        processor.action(dir, TranscodeStage::PrimaryEncode),
        command(
            "QSVEncC64",
            &[
                "--codec", "av1", "--input", "in/clip.mp4", "--output", "in/clip/av1/clip.mp4",
                "--quality", "balanced", "--fallback-rc",
            ]
        )
    );
    assert_eq!(
        processor.action(dir, TranscodeStage::ProbeVideo(Encoder::Primary)),
        command(
            "ffprobe",
            &[
                "-v", "error", "-select_streams", "v:0", "-count_packets", "-show_entries",
                "stream=nb_read_packets", "-of", "csv=p=0", "in/clip/av1/clip.mp4",
            ]
        )
    );
    assert_eq!(
        processor.action(dir, TranscodeStage::ProbeAudio { encoder: Encoder::Fallback, video_packets: 3 }),
        command(
            "ffprobe",
            &[
                "-v", "error", "-select_streams", "a:0", "-count_packets", "-show_entries",
                "stream=nb_read_packets", "-of", "csv=p=0", "in/clip/av1/clip.mp4",
            ]
        )
    );
}
