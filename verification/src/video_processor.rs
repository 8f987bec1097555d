//! The transcode stage: detect the codec, copy or encode, validate.
//!
//! A file that is already in the target codec is copied as it is. Any other
//! is encoded, by the preferred encoder first and by the fallback if that
//! fails, and the result is probed for video and audio packets.

use vstd::prelude::*;
use crate::command::{Action, ActionView, CommandLine, CommandLineView, FailureReason, Report};
use crate::command::{no_args, push_text, texts};
use crate::text::{lowercased, parse_clamped, parsed_clamped, same_text, trim, trimmed};
use crate::utils::{file_name, file_name_chars, join, joined};
use crate::text::{from_chars, to_chars};

verus! {

/// What codec detection found.
#[derive(Debug, Clone, Copy, PartialEq, Eq, Structural)]
pub enum EncodeDecision {
    AlreadyTarget,
    NeedsTranscode,
}

/// The two encoders: the preferred one, and the one tried when it fails.
#[derive(Debug, Clone, Copy, PartialEq, Eq, Structural)]
pub enum Encoder {
    Primary,
    Fallback,
}

/// How the output of the stage came about.
#[derive(Debug, Clone, Copy, PartialEq, Eq, Structural)]
pub enum Origin {
    /// The source was copied: no encoder ran and nothing was probed.
    Copied,
    /// The encoder produced it, and it passed validation.
    Encoded(Encoder),
}

/// Where the transcode stage stands. In every stage but the last two the
/// stage waits for the report on the action it has handed out.
#[derive(Debug, Clone, Copy, PartialEq, Eq, Structural)]
pub enum TranscodeStage {
    /// Making the directory for the intermediate encode.
    EnsureDir,
    /// Asking for the codec of the source.
    Detect,
    /// Copying the source.
    Copy,
    /// Running the preferred encoder.
    PrimaryEncode,
    /// Running the fallback encoder.
    FallbackEncode,
    /// Counting the video packets of what the encoder produced.
    ProbeVideo(Encoder),
    /// Counting the audio packets of what the encoder produced.
    ProbeAudio { encoder: Encoder, video_packets: i32 },
    /// The output is there.
    Ready(Origin),
    /// There is no output.
    Failed(FailureReason),
}

/// The codec that every output is in, as the codec probe names it.
pub open spec fn target_codec() -> Seq<char> {
    "av1"@
}

/// What the codec probe printed names the target codec: white space around
/// it and the case of its letters do not count.
pub open spec fn names_target_codec(printed: Seq<char>) -> bool {
    lowercased(trimmed(printed)) == target_codec()
}

/// What follows from the report of the codec probe. A probe that did not run
/// leads to an encode.
pub open spec fn decision(report: Report) -> EncodeDecision {
    match report.printed() {
        Some(printed) => if names_target_codec(printed) {
            EncodeDecision::AlreadyTarget
        } else {
            EncodeDecision::NeedsTranscode
        },
        None => EncodeDecision::NeedsTranscode,
    }
}

/// The number of packets that a packet probe reports: the number it printed,
/// brought into the range of an `i32`, or 0 where it did not run or printed
/// no number. A count too large for an `i32` is the largest `i32`: a probe
/// that has counted any packet never reports none.
pub open spec fn packet_count(report: Report) -> i32 {
    match report.printed() {
        Some(printed) => match parsed_clamped(trimmed(printed)) {
            Some(n) => n,
            None => 0,
        },
        None => 0,
    }
}

/// Whether an encoded file is accepted, given the number of its video
/// packets and the report of the audio probe. It is accepted exactly when it
/// holds a video packet. The audio is probed, but nothing the probe reports
/// counts against the file: audio may be absent.
pub open spec fn validated(video_packets: i32, audio: Report) -> Result<(), FailureReason> {
    if video_packets <= 0 {
        Err(FailureReason::NoVideoStream)
    } else {
        Ok(())
    }
}

/// What follows the report on an encoder's run: validation of its output
/// where it ran and ended without error; else the fallback after the
/// preferred encoder, and failure after the fallback.
pub open spec fn after_encode(encoder: Encoder, report: Report) -> TranscodeStage {
    if report.ran_well() {
        TranscodeStage::ProbeVideo(encoder)
    } else {
        match encoder {
            Encoder::Primary => TranscodeStage::FallbackEncode,
            Encoder::Fallback => TranscodeStage::Failed(FailureReason::EncodeFailed),
        }
    }
}

/// The stage that follows `stage` on `report`.
pub open spec fn next_stage(stage: TranscodeStage, report: Report) -> TranscodeStage {
    match stage {
        TranscodeStage::EnsureDir => TranscodeStage::Detect,
        TranscodeStage::Detect => match decision(report) {
            EncodeDecision::AlreadyTarget => TranscodeStage::Copy,
            EncodeDecision::NeedsTranscode => TranscodeStage::PrimaryEncode,
        },
        TranscodeStage::Copy => if report is Done {
            TranscodeStage::Ready(Origin::Copied)
        } else {
            TranscodeStage::Failed(FailureReason::IOFailure)
        },
        TranscodeStage::PrimaryEncode => after_encode(Encoder::Primary, report),
        TranscodeStage::FallbackEncode => after_encode(Encoder::Fallback, report),
        TranscodeStage::ProbeVideo(encoder) => TranscodeStage::ProbeAudio {
            encoder,
            video_packets: packet_count(report),
        },
        TranscodeStage::ProbeAudio { encoder, video_packets } => match validated(
            video_packets,
            report,
        ) {
            Ok(_) => TranscodeStage::Ready(Origin::Encoded(encoder)),
            Err(reason) => TranscodeStage::Failed(reason),
        },
        TranscodeStage::Ready(_) => stage,
        TranscodeStage::Failed(_) => stage,
    }
}

/// The command that asks for the codec of the first video stream of `video`.
pub open spec fn codec_probe(video: Seq<char>) -> CommandLineView {
    CommandLineView {
        program: "ffprobe"@,
        args: seq![
            "-v"@,
            "error"@,
            "-select_streams"@,
            "v:0"@,
            "-show_entries"@,
            "stream=codec_name"@,
            "-of"@,
            "default=noprint_wrappers=1:nokey=1"@,
            video,
        ],
    }
}

/// The command that runs the preferred, hardware-accelerated encoder.
pub open spec fn primary_encode(video: Seq<char>, output: Seq<char>) -> CommandLineView {
    CommandLineView {
        program: "QSVEncC64"@,
        args: seq![
            "--codec"@,
            "av1"@,
            "--input"@,
            video,
            "--output"@,
            output,
            "--quality"@,
            "balanced"@,
            "--fallback-rc"@,
        ],
    }
}

/// The command that runs the fallback, software encoder.
pub open spec fn fallback_encode(video: Seq<char>, output: Seq<char>) -> CommandLineView {
    CommandLineView {
        program: "ffmpeg"@,
        args: seq![
            "-i"@,
            video,
            "-c:v"@,
            "libaom-av1"@,
            "-crf"@,
            "30"@,
            "-b:v"@,
            "0"@,
            "-c:a"@,
            "copy"@,
            output,
        ],
    }
}

/// The command that counts the packets of one stream of `file`.
pub open spec fn packet_probe(stream: Seq<char>, file: Seq<char>) -> CommandLineView {
    CommandLineView {
        program: "ffprobe"@,
        args: seq![
            "-v"@,
            "error"@,
            "-select_streams"@,
            stream,
            "-count_packets"@,
            "-show_entries"@,
            "stream=nb_read_packets"@,
            "-of"@,
            "csv=p=0"@,
            file,
        ],
    }
}

/// The action that the stage hands out in `stage`, for the source `video`
/// and the directory `encode_dir` of the intermediate encode.
pub open spec fn stage_action(
    video: Seq<char>,
    encode_dir: Seq<char>,
    stage: TranscodeStage,
) -> ActionView {
    let output = joined(encode_dir, file_name(video));
    match stage {
        TranscodeStage::EnsureDir => ActionView::EnsureDir(encode_dir),
        TranscodeStage::Detect => ActionView::Run(codec_probe(video)),
        TranscodeStage::Copy => ActionView::CopyFile { from: video, to: output },
        TranscodeStage::PrimaryEncode => ActionView::Run(primary_encode(video, output)),
        TranscodeStage::FallbackEncode => ActionView::Run(fallback_encode(video, output)),
        TranscodeStage::ProbeVideo(_) => ActionView::Run(packet_probe("v:0"@, output)),
        TranscodeStage::ProbeAudio { .. } => ActionView::Run(packet_probe("a:0"@, output)),
        TranscodeStage::Ready(_) => ActionView::Succeed { output },
        TranscodeStage::Failed(reason) => ActionView::Fail {
            reason,
            diagnostic: Seq::empty(),
        },
    }
}

/// One source file on its way through the transcode stage.
pub struct VideoProcessor {
    video_path: String,
}

impl View for VideoProcessor {
    type V = Seq<char>;

    /// The path of the source.
    closed spec fn view(&self) -> Seq<char> {
        self.video_path@
    }
}

/// Builds the command of [`codec_probe`].
fn codec_probe_command(video: &str) -> (command: CommandLine)
    ensures
        command@ == codec_probe(video@),
{
    let mut args = no_args();
    push_text(&mut args, "-v");
    push_text(&mut args, "error");
    push_text(&mut args, "-select_streams");
    push_text(&mut args, "v:0");
    push_text(&mut args, "-show_entries");
    push_text(&mut args, "stream=codec_name");
    push_text(&mut args, "-of");
    push_text(&mut args, "default=noprint_wrappers=1:nokey=1");
    push_text(&mut args, video);
    assert(texts(args@) =~= codec_probe(video@).args);
    CommandLine { program: "ffprobe".to_owned(), args }
}

/// Builds the command of [`primary_encode`].
fn primary_encode_command(video: &str, output: &str) -> (command: CommandLine)
    ensures
        command@ == primary_encode(video@, output@),
{
    let mut args = no_args();
    push_text(&mut args, "--codec");
    push_text(&mut args, "av1");
    push_text(&mut args, "--input");
    push_text(&mut args, video);
    push_text(&mut args, "--output");
    push_text(&mut args, output);
    push_text(&mut args, "--quality");
    push_text(&mut args, "balanced");
    push_text(&mut args, "--fallback-rc");
    assert(texts(args@) =~= primary_encode(video@, output@).args);
    CommandLine { program: "QSVEncC64".to_owned(), args }
}

/// Builds the command of [`fallback_encode`].
fn fallback_encode_command(video: &str, output: &str) -> (command: CommandLine)
    ensures
        command@ == fallback_encode(video@, output@),
{
    let mut args = no_args();
    push_text(&mut args, "-i");
    push_text(&mut args, video);
    push_text(&mut args, "-c:v");
    push_text(&mut args, "libaom-av1");
    push_text(&mut args, "-crf");
    push_text(&mut args, "30");
    push_text(&mut args, "-b:v");
    push_text(&mut args, "0");
    push_text(&mut args, "-c:a");
    push_text(&mut args, "copy");
    push_text(&mut args, output);
    assert(texts(args@) =~= fallback_encode(video@, output@).args);
    CommandLine { program: "ffmpeg".to_owned(), args }
}

/// Builds the command of [`packet_probe`].
fn packet_probe_command(stream: &str, file: &str) -> (command: CommandLine)
    ensures
        command@ == packet_probe(stream@, file@),
{
    let mut args = no_args();
    push_text(&mut args, "-v");
    push_text(&mut args, "error");
    push_text(&mut args, "-select_streams");
    push_text(&mut args, stream);
    push_text(&mut args, "-count_packets");
    push_text(&mut args, "-show_entries");
    push_text(&mut args, "stream=nb_read_packets");
    push_text(&mut args, "-of");
    push_text(&mut args, "csv=p=0");
    push_text(&mut args, file);
    assert(texts(args@) =~= packet_probe(stream@, file@).args);
    CommandLine { program: "ffprobe".to_owned(), args }
}

impl VideoProcessor {
    /// A processor for the file at `video_path`.
    pub fn new(video_path: &str) -> (processor: Self)
        ensures
            processor@ == video_path@,
    {
        VideoProcessor { video_path: video_path.to_owned() }
    }

    /// The path of the source.
    pub fn video_path(&self) -> (path: &str)
        ensures
            path@ == self@,
    {
        self.video_path.as_str()
    }

    /// The last part of the source's path.
    pub fn get_file_name(&self) -> (name: String)
        ensures
            name@ == file_name(self@),
    {
        let path = to_chars(self.video_path.as_str());
        let name = file_name_chars(&path);
        from_chars(&name)
    }

    /// Where the output of the stage goes: into `av1_dir`, under the name of
    /// the source.
    pub fn output_path(&self, av1_dir: &str) -> (path: String)
        ensures
            path@ == joined(av1_dir@, file_name(self@)),
    {
        let name = self.get_file_name();
        join(av1_dir, name.as_str())
    }

    /// Whether `codec`, taken as it is, is the name of the target codec.
    pub fn is_target_codec(codec: &str) -> (target: bool)
        ensures
            target == (codec@ == target_codec()),
    {
        same_text(codec, "av1")
    }

    /// What follows from the report of the codec probe.
    pub fn detect(report: &Report) -> (found: EncodeDecision)
        ensures
            found == decision(*report),
    {
        match report {
            Report::Exited { stdout, .. } => {
                let codec = trim(stdout.as_str());
                let codec = codec.as_str().to_lowercase();
                if Self::is_target_codec(codec.as_str()) {
                    EncodeDecision::AlreadyTarget
                } else {
                    EncodeDecision::NeedsTranscode
                }
            },
            _ => EncodeDecision::NeedsTranscode,
        }
    }

    /// Whether the codec probe found the source to be in the target codec.
    pub fn is_av1_encoded(report: &Report) -> (already: bool)
        ensures
            already == (decision(*report) == EncodeDecision::AlreadyTarget),
    {
        match Self::detect(report) {
            EncodeDecision::AlreadyTarget => true,
            EncodeDecision::NeedsTranscode => false,
        }
    }

    /// The number of packets that a packet probe reports.
    pub fn count_packets(report: &Report) -> (count: i32)
        ensures
            count == packet_count(*report),
    {
        match report {
            Report::Exited { stdout, .. } => {
                let printed = trim(stdout.as_str());
                match parse_clamped(printed.as_str()) {
                    Some(n) => n,
                    None => 0,
                }
            },
            _ => 0,
        }
    }

    /// Whether an encoded file is accepted, given the number of its video
    /// packets and the report of the audio probe.
    pub fn check_streams(video_packets: i32, audio: &Report) -> (verdict: Result<
        (),
        FailureReason,
    >)
        ensures
            verdict == validated(video_packets, *audio),
    {
        if video_packets <= 0 {
            Err(FailureReason::NoVideoStream)
        } else {
            Ok(())
        }
    }

    /// The stage that follows the report on an encoder's run.
    pub fn transcode_to_av1(encoder: Encoder, report: &Report) -> (next: TranscodeStage)
        ensures
            next == after_encode(encoder, *report),
            next == TranscodeStage::Failed(FailureReason::EncodeFailed) <==> encoder
                == Encoder::Fallback && !report.ran_well(),
    {
        if report.has_run_well() {
            TranscodeStage::ProbeVideo(encoder)
        } else {
            match encoder {
                Encoder::Primary => TranscodeStage::FallbackEncode,
                Encoder::Fallback => TranscodeStage::Failed(FailureReason::EncodeFailed),
            }
        }
    }

    /// The action to perform in `stage`.
    pub fn action(&self, av1_dir: &str, stage: TranscodeStage) -> (action: Action)
        ensures
            action@ == stage_action(self@, av1_dir@, stage),
    {
        let video = self.video_path.as_str();
        match stage {
            TranscodeStage::EnsureDir => Action::EnsureDir(av1_dir.to_owned()),
            TranscodeStage::Detect => Action::Run(codec_probe_command(video)),
            TranscodeStage::Copy => Action::CopyFile {
                from: video.to_owned(),
                to: self.output_path(av1_dir),
            },
            TranscodeStage::PrimaryEncode => {
                let output = self.output_path(av1_dir);
                Action::Run(primary_encode_command(video, output.as_str()))
            },
            TranscodeStage::FallbackEncode => {
                let output = self.output_path(av1_dir);
                Action::Run(fallback_encode_command(video, output.as_str()))
            },
            TranscodeStage::ProbeVideo(_) => {
                let output = self.output_path(av1_dir);
                Action::Run(packet_probe_command("v:0", output.as_str()))
            },
            TranscodeStage::ProbeAudio { .. } => {
                let output = self.output_path(av1_dir);
                Action::Run(packet_probe_command("a:0", output.as_str()))
            },
            TranscodeStage::Ready(_) => Action::Succeed { output: self.output_path(av1_dir) },
            TranscodeStage::Failed(reason) => Action::Fail { reason, diagnostic: String::new() },
        }
    }

    /// One step of the stage: takes the report on the action that was handed
    /// out in `stage` and gives the stage that follows, with its action.
    pub fn process(&self, av1_dir: &str, stage: TranscodeStage, report: &Report) -> (step: (
        TranscodeStage,
        Action,
    ))
        ensures
            step.0 == next_stage(stage, *report),
            step.1@ == stage_action(self@, av1_dir@, step.0),
    {
        let next = match stage {
            TranscodeStage::EnsureDir => TranscodeStage::Detect,
            TranscodeStage::Detect => match Self::detect(report) {
                EncodeDecision::AlreadyTarget => TranscodeStage::Copy,
                EncodeDecision::NeedsTranscode => TranscodeStage::PrimaryEncode,
            },
            TranscodeStage::Copy => if report.is_done() {
                TranscodeStage::Ready(Origin::Copied)
            } else {
                TranscodeStage::Failed(FailureReason::IOFailure)
            },
            TranscodeStage::PrimaryEncode => Self::transcode_to_av1(Encoder::Primary, report),
            TranscodeStage::FallbackEncode => Self::transcode_to_av1(Encoder::Fallback, report),
            TranscodeStage::ProbeVideo(encoder) => TranscodeStage::ProbeAudio {
                encoder,
                video_packets: Self::count_packets(report),
            },
            TranscodeStage::ProbeAudio { encoder, video_packets } => match Self::check_streams(
                video_packets,
                report,
            ) {
                Ok(_) => TranscodeStage::Ready(Origin::Encoded(encoder)),
                Err(reason) => TranscodeStage::Failed(reason),
            },
            TranscodeStage::Ready(origin) => TranscodeStage::Ready(origin),
            TranscodeStage::Failed(reason) => TranscodeStage::Failed(reason),
        };
        (next, self.action(av1_dir, next))
    }
}

/// The stage reached from `start` once the reports `reports` have come in,
/// one after the other.
pub open spec fn stage_after(start: TranscodeStage, reports: Seq<Report>) -> TranscodeStage
    decreases reports.len(),
{
    if reports.len() == 0 {
        start
    } else {
        next_stage(stage_after(start, reports.drop_last()), reports.last())
    }
}

/// The fallback encoder is tried before a job is given up: when the
/// preferred encoder fails, the next action runs the fallback, and only the
/// failure of the fallback makes the stage fail for want of an encode.
pub proof fn lemma_fallback_follows_primary(
    video: Seq<char>,
    encode_dir: Seq<char>,
    stage: TranscodeStage,
    report: Report,
)
    ensures
        stage == TranscodeStage::PrimaryEncode && !report.ran_well() ==> {
            &&& next_stage(stage, report) == TranscodeStage::FallbackEncode
            &&& stage_action(video, encode_dir, next_stage(stage, report)) == ActionView::Run(
                fallback_encode(video, joined(encode_dir, file_name(video))),
            )
        },
        stage == TranscodeStage::FallbackEncode && !report.ran_well() ==> next_stage(stage, report)
            == TranscodeStage::Failed(FailureReason::EncodeFailed),
        stage != TranscodeStage::Failed(FailureReason::EncodeFailed) && next_stage(stage, report)
            == TranscodeStage::Failed(FailureReason::EncodeFailed) ==> stage
            == TranscodeStage::FallbackEncode && !report.ran_well(),
{
}

/// A run of the stage that ends for want of an encode has seen both
/// encoders fail, the preferred one first and the fallback right after it.
pub proof fn lemma_encode_failed_after_both(reports: Seq<Report>)
    requires
        stage_after(TranscodeStage::EnsureDir, reports) == TranscodeStage::Failed(
            FailureReason::EncodeFailed,
        ),
    ensures
        exists|k: int|
            {
                &&& 1 <= k < reports.len()
                &&& #[trigger] stage_after(TranscodeStage::EnsureDir, reports.take(k - 1))
                    == TranscodeStage::PrimaryEncode
                &&& !reports[k - 1].ran_well()
                &&& stage_after(TranscodeStage::EnsureDir, reports.take(k))
                    == TranscodeStage::FallbackEncode
                &&& !reports[k].ran_well()
            },
    decreases reports.len(),
{
    let start = TranscodeStage::EnsureDir;
    assert(reports.len() > 0);
    let before = reports.drop_last();
    let n = reports.len() as int;
    if stage_after(start, before) == TranscodeStage::Failed(FailureReason::EncodeFailed) {
        lemma_encode_failed_after_both(before);
        let k = choose|k: int|
            {
                &&& 1 <= k < before.len()
                &&& #[trigger] stage_after(start, before.take(k - 1))
                    == TranscodeStage::PrimaryEncode
                &&& !before[k - 1].ran_well()
                &&& stage_after(start, before.take(k)) == TranscodeStage::FallbackEncode
                &&& !before[k].ran_well()
            };
        assert(before.take(k - 1) == reports.take(k - 1));
        assert(before.take(k) == reports.take(k));
        assert(stage_after(start, reports.take(k - 1)) == TranscodeStage::PrimaryEncode);
    } else {
        assert(stage_after(start, before) == TranscodeStage::FallbackEncode);
        assert(before.len() > 0);
        let k = n - 1;
        assert(reports.take(k) == before);
        assert(reports.take(k - 1) == before.drop_last());
        assert(before.last() == reports[k - 1]);
        assert(stage_after(start, reports.take(k - 1)) == TranscodeStage::PrimaryEncode);
    }
}

/// The number that a packet probe printed, where it printed one: the
/// number itself, however large.
pub open spec fn printed_count(report: Report) -> Option<int> {
    match report.printed() {
        Some(printed) => crate::text::parsed_number(trimmed(printed)),
        None => None,
    }
}

/// What validation looks at: an encoded file is accepted exactly when the
/// video probe printed a number of at least 1, however large, and whatever
/// the audio probe reports: no audio packet, or no report at all. A file
/// without a video packet is rejected whatever the audio probe reports.
pub proof fn lemma_validation(encoder: Encoder, video: Report, audio: Report)
    ensures
        packet_count(video) >= 1 <==> (printed_count(video) matches Some(n) && n >= 1),
        validated(packet_count(video), audio) is Ok <==> packet_count(video) >= 1,
        packet_count(video) >= 1 ==> next_stage(
            next_stage(TranscodeStage::ProbeVideo(encoder), video),
            audio,
        ) == TranscodeStage::Ready(Origin::Encoded(encoder)),
        packet_count(video) <= 0 ==> {
            &&& validated(packet_count(video), audio) == Err::<(), FailureReason>(
                FailureReason::NoVideoStream,
            )
            &&& next_stage(next_stage(TranscodeStage::ProbeVideo(encoder), video), audio)
                == TranscodeStage::Failed(FailureReason::NoVideoStream)
        },
{
}

/// A source that is already in the target codec is copied and nothing else:
/// detection leads to the copy of the source to the output path, and the copy
/// ends the stage, with or without output. No encoder runs and nothing is
/// probed.
pub proof fn lemma_target_codec_is_copied(
    video: Seq<char>,
    encode_dir: Seq<char>,
    detected: Report,
    copied: Report,
)
    requires
        decision(detected) == EncodeDecision::AlreadyTarget,
    ensures
        next_stage(TranscodeStage::Detect, detected) == TranscodeStage::Copy,
        stage_action(video, encode_dir, TranscodeStage::Copy) == (ActionView::CopyFile {
            from: video,
            to: joined(encode_dir, file_name(video)),
        }),
        copied is Done ==> next_stage(TranscodeStage::Copy, copied) == TranscodeStage::Ready(
            Origin::Copied,
        ),
        !(copied is Done) ==> next_stage(TranscodeStage::Copy, copied) == TranscodeStage::Failed(
            FailureReason::IOFailure,
        ),
{
}

/// The output of a run is a copy of the source only where detection found
/// the target codec: a run that ends with a copied output has gone from
/// detection to the copy and from there to its end.
pub proof fn lemma_copied_only_after_detection(reports: Seq<Report>)
    requires
        stage_after(TranscodeStage::EnsureDir, reports) == TranscodeStage::Ready(Origin::Copied),
    ensures
        exists|k: int|
            {
                &&& 1 <= k < reports.len()
                &&& #[trigger] stage_after(TranscodeStage::EnsureDir, reports.take(k - 1))
                    == TranscodeStage::Detect
                &&& decision(reports[k - 1]) == EncodeDecision::AlreadyTarget
                &&& stage_after(TranscodeStage::EnsureDir, reports.take(k)) == TranscodeStage::Copy
                &&& reports[k] is Done
            },
    decreases reports.len(),
{
    let start = TranscodeStage::EnsureDir;
    assert(reports.len() > 0);
    let before = reports.drop_last();
    let n = reports.len() as int;
    if stage_after(start, before) == TranscodeStage::Ready(Origin::Copied) {
        lemma_copied_only_after_detection(before);
        let k = choose|k: int|
            {
                &&& 1 <= k < before.len()
                &&& #[trigger] stage_after(start, before.take(k - 1)) == TranscodeStage::Detect
                &&& decision(before[k - 1]) == EncodeDecision::AlreadyTarget
                &&& stage_after(start, before.take(k)) == TranscodeStage::Copy
                &&& before[k] is Done
            };
        assert(before.take(k - 1) == reports.take(k - 1));
        assert(before.take(k) == reports.take(k));
        assert(stage_after(start, reports.take(k - 1)) == TranscodeStage::Detect);
    } else {
        assert(stage_after(start, before) == TranscodeStage::Copy);
        assert(before.len() > 0);
        let k = n - 1;
        assert(reports.take(k) == before);
        assert(reports.take(k - 1) == before.drop_last());
        assert(before.last() == reports[k - 1]);
        assert(stage_after(start, reports.take(k - 1)) == TranscodeStage::Detect);
    }
}

impl TranscodeStage {
    /// The stage has ended, with output or without.
    pub open spec fn ended(self) -> bool {
        self is Ready || self is Failed
    }

    /// The number of reports after which a run stands in this stage; for a
    /// stage that has ended, the largest number after which a run can still
    /// go on, and one more.
    pub open spec fn position(self) -> nat {
        match self {
            TranscodeStage::EnsureDir => 0,
            TranscodeStage::Detect => 1,
            TranscodeStage::Copy => 2,
            TranscodeStage::PrimaryEncode => 2,
            TranscodeStage::FallbackEncode => 3,
            TranscodeStage::ProbeVideo(Encoder::Primary) => 3,
            TranscodeStage::ProbeVideo(Encoder::Fallback) => 4,
            TranscodeStage::ProbeAudio { encoder: Encoder::Primary, .. } => 4,
            TranscodeStage::ProbeAudio { encoder: Encoder::Fallback, .. } => 5,
            TranscodeStage::Ready(_) => 6,
            TranscodeStage::Failed(_) => 6,
        }
    }
}

/// Every step brings a stage that has not ended one position further, or to
/// its end.
pub proof fn lemma_step_advances(stage: TranscodeStage, report: Report)
    ensures
        stage.ended() ==> next_stage(stage, report) == stage,
        !stage.ended() && !next_stage(stage, report).ended() ==> next_stage(
            stage,
            report,
        ).position() == stage.position() + 1,
{
}

/// A run that has not ended after `reports` stands in a stage whose position
/// is the number of those reports.
pub proof fn lemma_run_position(reports: Seq<Report>)
    ensures
        !stage_after(TranscodeStage::EnsureDir, reports).ended() ==> stage_after(
            TranscodeStage::EnsureDir,
            reports,
        ).position() == reports.len(),
    decreases reports.len(),
{
    if reports.len() > 0 {
        lemma_run_position(reports.drop_last());
        lemma_step_advances(
            stage_after(TranscodeStage::EnsureDir, reports.drop_last()),
            reports.last(),
        );
    }
}

/// A job makes at most two attempts to encode: a run of the stage comes by
/// the preferred encoder at one place only, by the fallback at one place
/// only, right behind it, and has ended after six reports.
pub proof fn lemma_at_most_two_attempts(reports: Seq<Report>, k: int)
    requires
        0 <= k <= reports.len(),
    ensures
        stage_after(TranscodeStage::EnsureDir, reports.take(k)) == TranscodeStage::PrimaryEncode
            ==> k == 2,
        stage_after(TranscodeStage::EnsureDir, reports.take(k)) == TranscodeStage::FallbackEncode
            ==> k == 3,
        reports.len() >= 6 ==> stage_after(TranscodeStage::EnsureDir, reports).ended(),
{
    lemma_run_position(reports.take(k));
    lemma_run_position(reports);
}

} // verus!
