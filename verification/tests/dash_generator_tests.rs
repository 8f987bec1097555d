use dash_pipeline::command::{Action, CommandLine, FailureReason, Report};
use dash_pipeline::dash_generator::{DashGenerator, PackagingStage};

fn generator() -> DashGenerator {
    DashGenerator::new("in/clip/av1/clip.mp4", "in/clip", 10)
}

fn exited(success: bool, stderr: &str) -> Report {
    Report::Exited { success, stdout: String::new(), stderr: stderr.to_string() }
}

#[test]
fn stage_starts_with_the_segment_directory() {
    assert_eq!(generator().start("in/clip/live"), Action::EnsureDir("in/clip/live".to_string()));
    assert_eq!(generator().manifest_path(), "in/clip/main.mpd");
}

#[test]
fn segmenter_copies_streams_into_templated_segments() {
    let (stage, action) =
        generator().generate_dash("in/clip/live", PackagingStage::EnsureDir, &Report::Done);
    assert_eq!(stage, PackagingStage::Package);
    let args = [
        "-i", "in/clip/av1/clip.mp4", "-v", "level+debug", "-c", "copy", "-map", "0", "-f",
        "dash", "-seg_duration", "10", "-use_template", "1", "-use_timeline", "1",
        "-dash_segment_type", "mp4", "-init_seg_name",
        "in/clip/live/init_$RepresentationID$.m4s", "-media_seg_name",
        "in/clip/live/chunk_$RepresentationID$_$Number$.m4s", "in/clip/main.mpd",
    ];
    assert_eq!(
        action,
        Action::Run(CommandLine {
            program: "ffmpeg".to_string(),
            args: args.iter().map(|a| a.to_string()).collect(),
        })
    );
}

#[test]
fn segment_duration_is_written_in_decimal() {
    let generator = DashGenerator::new("v.mp4", "d", 4000000000);
    let (_, action) = generator.generate_dash("d/live", PackagingStage::EnsureDir, &Report::Done);
    match action {
        Action::Run(line) => {
            assert_eq!(line.args[10], "-seg_duration");
            assert_eq!(line.args[11], "4000000000");
        }
        other => panic!("unexpected action {:?}", other),
    }
}

#[test]
fn missing_segment_directory_is_an_io_failure() {
    let (stage, action) =
        generator().generate_dash("in/clip/live", PackagingStage::EnsureDir, &Report::IoFailed);
    assert_eq!(stage, PackagingStage::Failed(FailureReason::IOFailure));
    assert_eq!(action, Action::Fail { reason: FailureReason::IOFailure, diagnostic: String::new() });
}

#[test]
fn failed_segmenter_surfaces_its_diagnostics() {
    let (stage, action) = generator().generate_dash(
        "in/clip/live",
        PackagingStage::Package,
        &exited(false, "Invalid data found"),
    );
    assert_eq!(stage, PackagingStage::Failed(FailureReason::PackagingFailed));
    assert_eq!(
        action,
        Action::Fail {
            reason: FailureReason::PackagingFailed,
            diagnostic: "Invalid data found".to_string()
        }
    );
    let (stage, action) =
        generator().generate_dash("in/clip/live", PackagingStage::Package, &Report::SpawnFailed);
    assert_eq!(stage, PackagingStage::Failed(FailureReason::PackagingFailed));
    assert_eq!(
        action,
        Action::Fail { reason: FailureReason::PackagingFailed, diagnostic: String::new() }
    );
}

#[test]
fn manifest_is_read_after_packaging() {
    let (stage, action) =
        generator().generate_dash("in/clip/live", PackagingStage::Package, &exited(true, "debug"));
    assert_eq!(stage, PackagingStage::ReadManifest);
    assert_eq!(action, Action::ReadText("in/clip/main.mpd".to_string()));
}

#[test]
fn manifest_is_written_back_in_normal_form() {
    let read = Report::Text(r#"<S media=".\clip\live\chunk_$Number$.m4s"/>"#.to_string());
    let (stage, action) =
        generator().generate_dash("in/clip/live", PackagingStage::ReadManifest, &read);
    assert_eq!(stage, PackagingStage::WriteManifest);
    assert_eq!(
        action,
        Action::WriteText {
            path: "in/clip/main.mpd".to_string(),
            content: r#"<S media="live/chunk_$Number$.m4s"/>"#.to_string()
        }
    );
    let (stage, action) =
        generator().generate_dash("in/clip/live", PackagingStage::WriteManifest, &Report::Done);
    assert_eq!(stage, PackagingStage::Done);
    assert_eq!(action, Action::Succeed { output: "in/clip/main.mpd".to_string() });
}

#[test]
fn normalized_manifest_is_not_written() {
    let read = Report::Text(r#"<S media="live/chunk_$Number$.m4s"/>"#.to_string());
    let (stage, action) =
        generator().generate_dash("in/clip/live", PackagingStage::ReadManifest, &read);
    assert_eq!(stage, PackagingStage::Done);
    assert_eq!(action, Action::Succeed { output: "in/clip/main.mpd".to_string() });
}

#[test]
fn unreadable_or_unwritable_manifest_is_an_io_failure() {
    let (stage, _) =
        generator().generate_dash("in/clip/live", PackagingStage::ReadManifest, &Report::IoFailed);
    assert_eq!(stage, PackagingStage::Failed(FailureReason::IOFailure));
    let (stage, _) =
        generator().generate_dash("in/clip/live", PackagingStage::WriteManifest, &Report::IoFailed);
    assert_eq!(stage, PackagingStage::Failed(FailureReason::IOFailure));
}

#[test]
fn ended_packaging_stays_as_it_is() {
    for stage in [PackagingStage::Done, PackagingStage::Failed(FailureReason::PackagingFailed)] {
        for report in [Report::Done, Report::IoFailed, exited(false, "late")] {
            assert_eq!(generator().generate_dash("l", stage, &report).0, stage);
        }
    }
    let (_, action) = generator().generate_dash(
        "l",
        PackagingStage::Failed(FailureReason::PackagingFailed),
        &exited(false, "late"),
    );
    assert_eq!(
        action,
        Action::Fail { reason: FailureReason::PackagingFailed, diagnostic: String::new() }
    );
}

#[test]
fn segments_are_named_within_the_segment_directory() {
    let generator = DashGenerator::new("/v/a/av1/a.mp4", "/v/a", 10);
    assert_eq!(generator.start("/out/segs"), Action::EnsureDir("/out/segs".to_string()));
    let (_, action) = generator.generate_dash("/out/segs", PackagingStage::EnsureDir, &Report::Done);
    match action {
        Action::Run(line) => {
            assert_eq!(line.args[18], "-init_seg_name");
            assert_eq!(line.args[19], "/out/segs/init_$RepresentationID$.m4s");
            assert_eq!(line.args[20], "-media_seg_name");
            assert_eq!(line.args[21], "/out/segs/chunk_$RepresentationID$_$Number$.m4s");
            assert_eq!(line.args[22], "/v/a/main.mpd");
        }
        other => panic!("unexpected action {:?}", other),
    }
}
