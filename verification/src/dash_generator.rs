//! The packaging stage: segment the encoded file, then bring the paths in
//! its manifest into their normal form.

use vstd::prelude::*;
use crate::command::{Action, ActionView, CommandLine, CommandLineView, FailureReason, Report};
use crate::command::{no_args, push_text, texts};
use crate::manifest::{fix_mpd_paths, normalized};
use crate::text::{decimal, decimal_text};
use crate::utils::{join, joined};
use vstd::string::StringExecFns;

verus! {

/// Where the packaging stage stands. In every stage but the last two the
/// stage waits for the report on the action it has handed out.
#[derive(Debug, Clone, Copy, PartialEq, Eq, Structural)]
pub enum PackagingStage {
    /// Making the directory for the segments.
    EnsureDir,
    /// Running the segmenter.
    Package,
    /// Reading the manifest that the segmenter wrote.
    ReadManifest,
    /// Writing the manifest back in its normal form.
    WriteManifest,
    /// The manifest and the segments are there.
    Done,
    /// There is no output.
    Failed(FailureReason),
}

/// The name of the manifest within the directory of a job.
pub open spec fn manifest_name() -> Seq<char> {
    "main.mpd"@
}

/// The path of the manifest of the job that works in `dash_dir`.
pub open spec fn manifest_path(dash_dir: Seq<char>) -> Seq<char> {
    joined(dash_dir, manifest_name())
}

/// The template that names the initialization segments within the segment
/// directory `live_dir`.
pub open spec fn init_segment_template(live_dir: Seq<char>) -> Seq<char> {
    live_dir + "/init_$RepresentationID$.m4s"@
}

/// The template that names the media segments within the segment directory
/// `live_dir`.
pub open spec fn media_segment_template(live_dir: Seq<char>) -> Seq<char> {
    live_dir + "/chunk_$RepresentationID$_$Number$.m4s"@
}

/// The command that segments `video`, without encoding it anew, into
/// segments of `seg_duration` seconds: the manifest goes into the directory
/// `dash_dir`, the segments into the directory `live_dir`.
pub open spec fn segmenter(
    video: Seq<char>,
    dash_dir: Seq<char>,
    live_dir: Seq<char>,
    seg_duration: nat,
) -> CommandLineView {
    CommandLineView {
        program: "ffmpeg"@,
        args: seq![
            "-i"@,
            video,
            "-v"@,
            "level+debug"@,
            "-c"@,
            "copy"@,
            "-map"@,
            "0"@,
            "-f"@,
            "dash"@,
            "-seg_duration"@,
            decimal(seg_duration),
            "-use_template"@,
            "1"@,
            "-use_timeline"@,
            "1"@,
            "-dash_segment_type"@,
            "mp4"@,
            "-init_seg_name"@,
            init_segment_template(live_dir),
            "-media_seg_name"@,
            media_segment_template(live_dir),
            manifest_path(dash_dir),
        ],
    }
}

/// What a [`DashGenerator`] works on.
pub struct DashGeneratorView {
    /// The encoded file.
    pub video_path: Seq<char>,
    /// The directory of the job.
    pub dash_dir: Seq<char>,
    /// The length of a segment in seconds.
    pub seg_duration: nat,
}

/// The stage that follows `stage` on `report`.
pub open spec fn next_packaging(stage: PackagingStage, report: Report) -> PackagingStage {
    match stage {
        PackagingStage::EnsureDir => if report is Done {
            PackagingStage::Package
        } else {
            PackagingStage::Failed(FailureReason::IOFailure)
        },
        PackagingStage::Package => if report.ran_well() {
            PackagingStage::ReadManifest
        } else {
            PackagingStage::Failed(FailureReason::PackagingFailed)
        },
        PackagingStage::ReadManifest => match report.text() {
            Some(content) => if normalized(content) == content {
                PackagingStage::Done
            } else {
                PackagingStage::WriteManifest
            },
            None => PackagingStage::Failed(FailureReason::IOFailure),
        },
        PackagingStage::WriteManifest => if report is Done {
            PackagingStage::Done
        } else {
            PackagingStage::Failed(FailureReason::IOFailure)
        },
        PackagingStage::Done => stage,
        PackagingStage::Failed(_) => stage,
    }
}

/// The action that the stage hands out after `report` has led it from
/// `stage` to the stage that follows. The manifest is written back only in
/// its normal form and only where that differs from what was read; a failed
/// run of the segmenter is reported with what it wrote to its error stream.
pub open spec fn packaging_action(
    job: DashGeneratorView,
    live_dir: Seq<char>,
    stage: PackagingStage,
    report: Report,
) -> ActionView {
    match next_packaging(stage, report) {
        PackagingStage::EnsureDir => ActionView::EnsureDir(live_dir),
        PackagingStage::Package => ActionView::Run(
            segmenter(job.video_path, job.dash_dir, live_dir, job.seg_duration),
        ),
        PackagingStage::ReadManifest => ActionView::ReadText(manifest_path(job.dash_dir)),
        PackagingStage::WriteManifest => ActionView::WriteText {
            path: manifest_path(job.dash_dir),
            content: match report.text() {
                Some(content) => normalized(content),
                None => Seq::empty(),
            },
        },
        PackagingStage::Done => ActionView::Succeed { output: manifest_path(job.dash_dir) },
        PackagingStage::Failed(reason) => ActionView::Fail {
            reason,
            diagnostic: if stage == PackagingStage::Package {
                report.complaint()
            } else {
                Seq::empty()
            },
        },
    }
}

/// One encoded file on its way through the packaging stage.
pub struct DashGenerator {
    video_path: String,
    dash_dir: String,
    seg_duration: u32,
}

impl View for DashGenerator {
    type V = DashGeneratorView;

    closed spec fn view(&self) -> DashGeneratorView {
        DashGeneratorView {
            video_path: self.video_path@,
            dash_dir: self.dash_dir@,
            seg_duration: self.seg_duration as nat,
        }
    }
}

/// Builds the command of [`segmenter`].
fn segmenter_command(video: &str, dash_dir: &str, live_dir: &str, seg_duration: u32) -> (command:
    CommandLine)
    ensures
        command@ == segmenter(video@, dash_dir@, live_dir@, seg_duration as nat),
{
    let seconds = decimal_text(seg_duration as u64);
    let mut init = live_dir.to_owned();
    init.append("/init_$RepresentationID$.m4s");
    let mut media = live_dir.to_owned();
    media.append("/chunk_$RepresentationID$_$Number$.m4s");
    let manifest = join(dash_dir, "main.mpd");
    let mut args = no_args();
    push_text(&mut args, "-i");
    push_text(&mut args, video);
    push_text(&mut args, "-v");
    push_text(&mut args, "level+debug");
    push_text(&mut args, "-c");
    push_text(&mut args, "copy");
    push_text(&mut args, "-map");
    push_text(&mut args, "0");
    push_text(&mut args, "-f");
    push_text(&mut args, "dash");
    push_text(&mut args, "-seg_duration");
    push_text(&mut args, seconds.as_str());
    push_text(&mut args, "-use_template");
    push_text(&mut args, "1");
    push_text(&mut args, "-use_timeline");
    push_text(&mut args, "1");
    push_text(&mut args, "-dash_segment_type");
    push_text(&mut args, "mp4");
    push_text(&mut args, "-init_seg_name");
    push_text(&mut args, init.as_str());
    push_text(&mut args, "-media_seg_name");
    push_text(&mut args, media.as_str());
    push_text(&mut args, manifest.as_str());
    assert(texts(args@) =~= segmenter(video@, dash_dir@, live_dir@, seg_duration as nat).args);
    CommandLine { program: "ffmpeg".to_owned(), args }
}

impl DashGenerator {
    /// A generator that segments the file at `video_path` into the directory
    /// `dash_dir`, into segments of `seg_duration` seconds.
    pub fn new(video_path: &str, dash_dir: &str, seg_duration: u32) -> (generator: Self)
        ensures
            generator@ == (DashGeneratorView {
                video_path: video_path@,
                dash_dir: dash_dir@,
                seg_duration: seg_duration as nat,
            }),
    {
        DashGenerator {
            video_path: video_path.to_owned(),
            dash_dir: dash_dir.to_owned(),
            seg_duration,
        }
    }

    /// The path of the manifest.
    pub fn manifest_path(&self) -> (path: String)
        ensures
            path@ == manifest_path(self@.dash_dir),
    {
        join(self.dash_dir.as_str(), "main.mpd")
    }

    /// The first action of the stage: to make the directory `live_dir` for
    /// the segments. The stage then stands in [`PackagingStage::EnsureDir`].
    pub fn start(&self, live_dir: &str) -> (action: Action)
        ensures
            action@ == ActionView::EnsureDir(live_dir@),
    {
        Action::EnsureDir(live_dir.to_owned())
    }

    /// One step of the stage: takes the report on the action that was handed
    /// out in `stage` and gives the stage that follows, with its action.
    pub fn generate_dash(&self, live_dir: &str, stage: PackagingStage, report: &Report) -> (step:
        (PackagingStage, Action))
        ensures
            step.0 == next_packaging(stage, *report),
            step.1@ == packaging_action(self@, live_dir@, stage, *report),
    {
        match stage {
            PackagingStage::EnsureDir => {
                if report.is_done() {
                    (
                        PackagingStage::Package,
                        Action::Run(
                            segmenter_command(
                                self.video_path.as_str(),
                                self.dash_dir.as_str(),
                                live_dir,
                                self.seg_duration,
                            ),
                        ),
                    )
                } else {
                    self.give_up(FailureReason::IOFailure, String::new())
                }
            },
            PackagingStage::Package => {
                if report.has_run_well() {
                    (PackagingStage::ReadManifest, Action::ReadText(self.manifest_path()))
                } else {
                    let diagnostic = match report {
                        Report::Exited { stderr, .. } => stderr.clone(),
                        _ => String::new(),
                    };
                    self.give_up(FailureReason::PackagingFailed, diagnostic)
                }
            },
            PackagingStage::ReadManifest => {
                match report {
                    Report::Text(content) => match fix_mpd_paths(content.as_str()) {
                        Some(fixed) => (
                            PackagingStage::WriteManifest,
                            Action::WriteText { path: self.manifest_path(), content: fixed },
                        ),
                        None => (
                            PackagingStage::Done,
                            Action::Succeed { output: self.manifest_path() },
                        ),
                    },
                    _ => self.give_up(FailureReason::IOFailure, String::new()),
                }
            },
            PackagingStage::WriteManifest => {
                if report.is_done() {
                    (PackagingStage::Done, Action::Succeed { output: self.manifest_path() })
                } else {
                    self.give_up(FailureReason::IOFailure, String::new())
                }
            },
            PackagingStage::Done => (
                PackagingStage::Done,
                Action::Succeed { output: self.manifest_path() },
            ),
            PackagingStage::Failed(reason) => self.give_up(reason, String::new()),
        }
    }

    /// The end of the stage without output.
    fn give_up(&self, reason: FailureReason, diagnostic: String) -> (step: (
        PackagingStage,
        Action,
    ))
        ensures
            step.0 == PackagingStage::Failed(reason),
            step.1@ == (ActionView::Fail { reason, diagnostic: diagnostic@ }),
    {
        (PackagingStage::Failed(reason), Action::Fail { reason, diagnostic })
    }
}

} // verus!
