//! One job from source file to published output, and the record of the jobs
//! that finished.
//!
//! A job runs the transcode stage, then the packaging stage, then moves or
//! copies its directory to the publish root where one is configured. Its
//! stages follow each other strictly. What happens to one job depends on
//! that job and the reports made to it alone: a job that fails takes no
//! other job with it.

use vstd::prelude::*;
use crate::command::{Action, ActionView, FailureReason, Report};
use crate::config::RelocationMode;
use crate::dash_generator::{DashGenerator, DashGeneratorView, PackagingStage};
use crate::dash_generator::{manifest_path, next_packaging, packaging_action};
use crate::json_generator::{entries_for, pairs, title_of, url_of};
use crate::utils::{encode_dir_name, file_name, join, joined, output_dir, segment_dir_name};
use crate::utils::{file_name_chars, setup_output_dirs};
use crate::text::{from_chars, to_chars};
use crate::video_processor::{next_stage, stage_action, TranscodeStage, VideoProcessor};

verus! {

/// Where finished jobs are published, and how they get there.
#[derive(Debug, Clone, PartialEq, Eq)]
pub struct Publish {
    pub root: String,
    pub mode: RelocationMode,
}

/// Where a job stands.
#[derive(Debug, Clone, Copy, PartialEq, Eq, Structural)]
pub enum JobStage {
    /// In the transcode stage.
    Transcode(TranscodeStage),
    /// In the packaging stage.
    Package(PackagingStage),
    /// Packaged; its directory is on the way to the publish root.
    Relocate,
    /// Ended with output.
    Succeeded,
    /// Ended without output.
    Failed(FailureReason),
}

/// What a [`Job`] holds.
pub struct JobView {
    /// The source file.
    pub video_path: Seq<char>,
    /// The directory of the job.
    pub dash_dir: Seq<char>,
    /// The directory of the intermediate encode.
    pub av1_dir: Seq<char>,
    /// The directory of the segments.
    pub live_dir: Seq<char>,
    /// The length of a segment in seconds.
    pub seg_duration: nat,
    /// The publish root and the way to it, where one is configured.
    pub publish: Option<(Seq<char>, RelocationMode)>,
    /// Where the job stands.
    pub stage: JobStage,
}

impl JobView {
    /// The job has ended.
    pub open spec fn finished(self) -> bool {
        self.stage is Succeeded || self.stage is Failed
    }

    /// Where the transcode stage leaves the encoded file.
    pub open spec fn encoded_path(self) -> Seq<char> {
        joined(self.av1_dir, file_name(self.video_path))
    }

    /// What the packaging stage of the job works on.
    pub open spec fn packaging(self) -> DashGeneratorView {
        DashGeneratorView {
            video_path: self.encoded_path(),
            dash_dir: self.dash_dir,
            seg_duration: self.seg_duration,
        }
    }
}

/// The action that brings the directory `dash_dir` of a job to the publish
/// root `root`: a copy of the directory into the root, or a move of the
/// directory to its own name within the root.
pub open spec fn relocation(dash_dir: Seq<char>, root: Seq<char>, mode: RelocationMode)
    -> ActionView {
    match mode {
        RelocationMode::Copy => ActionView::CopyTree { from: dash_dir, into: root },
        RelocationMode::Move => ActionView::MoveTree {
            from: dash_dir,
            to: joined(root, file_name(dash_dir)),
        },
    }
}

/// The stage that follows from `report` in the job `job`, and the action
/// that the job then hands out.
///
/// The packaging stage begins when the transcode stage has left its output,
/// and not before. A failure of either stage ends the job. A packaged job
/// succeeds whatever comes of its relocation.
pub open spec fn job_step(job: JobView, report: Report) -> (JobStage, ActionView) {
    match job.stage {
        JobStage::Transcode(stage) => {
            let next = next_stage(stage, report);
            match next {
                TranscodeStage::Ready(_) => (
                    JobStage::Package(PackagingStage::EnsureDir),
                    ActionView::EnsureDir(job.live_dir),
                ),
                TranscodeStage::Failed(reason) => (
                    JobStage::Failed(reason),
                    stage_action(job.video_path, job.av1_dir, next),
                ),
                _ => (JobStage::Transcode(next), stage_action(job.video_path, job.av1_dir, next)),
            }
        },
        JobStage::Package(stage) => {
            let next = next_packaging(stage, report);
            let action = packaging_action(job.packaging(), job.live_dir, stage, report);
            match next {
                PackagingStage::Done => match job.publish {
                    Some((root, mode)) => (
                        JobStage::Relocate,
                        relocation(job.dash_dir, root, mode),
                    ),
                    None => (JobStage::Succeeded, action),
                },
                PackagingStage::Failed(reason) => (JobStage::Failed(reason), action),
                _ => (JobStage::Package(next), action),
            }
        },
        JobStage::Relocate => (
            JobStage::Succeeded,
            ActionView::Succeed { output: manifest_path(job.dash_dir) },
        ),
        JobStage::Succeeded => (
            JobStage::Succeeded,
            ActionView::Succeed { output: manifest_path(job.dash_dir) },
        ),
        JobStage::Failed(reason) => (
            JobStage::Failed(reason),
            ActionView::Fail { reason, diagnostic: Seq::empty() },
        ),
    }
}

/// The action that brings the directory of a job to the publish root.
pub fn relocate(dash_dir: &str, destination_root: &str, mode: RelocationMode) -> (action: Action)
    ensures
        action@ == relocation(dash_dir@, destination_root@, mode),
{
    match mode {
        RelocationMode::Copy => Action::CopyTree {
            from: dash_dir.to_owned(),
            into: destination_root.to_owned(),
        },
        RelocationMode::Move => {
            let dir = to_chars(dash_dir);
            let name = file_name_chars(&dir);
            let name = from_chars(&name);
            Action::MoveTree {
                from: dash_dir.to_owned(),
                to: join(destination_root, name.as_str()),
            }
        },
    }
}

/// One input file under conversion.
pub struct Job {
    processor: VideoProcessor,
    dash_dir: String,
    av1_dir: String,
    live_dir: String,
    seg_duration: u32,
    publish: Option<Publish>,
    stage: JobStage,
}

impl View for Job {
    type V = JobView;

    closed spec fn view(&self) -> JobView {
        JobView {
            video_path: self.processor@,
            dash_dir: self.dash_dir@,
            av1_dir: self.av1_dir@,
            live_dir: self.live_dir@,
            seg_duration: self.seg_duration as nat,
            publish: match self.publish {
                Some(publish) => Some((publish.root@, publish.mode)),
                None => None,
            },
            stage: self.stage,
        }
    }
}

impl Job {
    /// A job for the file at `video_path`, at the start of its transcode
    /// stage. It works in the directory beside the file that is named like
    /// it.
    pub fn new(video_path: &str, seg_duration: u32, publish: Option<Publish>) -> (job: Self)
        ensures
            job@ == (JobView {
                video_path: video_path@,
                dash_dir: output_dir(video_path@),
                av1_dir: joined(output_dir(video_path@), encode_dir_name()),
                live_dir: joined(output_dir(video_path@), segment_dir_name()),
                seg_duration: seg_duration as nat,
                publish: match publish {
                    Some(publish) => Some((publish.root@, publish.mode)),
                    None => None,
                },
                stage: JobStage::Transcode(TranscodeStage::EnsureDir),
            }),
    {
        let (dash_dir, av1_dir, live_dir) = setup_output_dirs(video_path);
        Job {
            processor: VideoProcessor::new(video_path),
            dash_dir,
            av1_dir,
            live_dir,
            seg_duration,
            publish,
            stage: JobStage::Transcode(TranscodeStage::EnsureDir),
        }
    }

    /// Where the job stands.
    pub fn stage(&self) -> (stage: JobStage)
        ensures
            stage == self@.stage,
    {
        self.stage
    }

    /// Whether the job has ended.
    pub fn is_finished(&self) -> (finished: bool)
        ensures
            finished == self@.finished(),
    {
        match self.stage {
            JobStage::Succeeded => true,
            JobStage::Failed(_) => true,
            _ => false,
        }
    }

    /// The source file.
    pub fn video_path(&self) -> (path: &str)
        ensures
            path@ == self@.video_path,
    {
        self.processor.video_path()
    }

    /// The directory of the job.
    pub fn dash_dir(&self) -> (path: &str)
        ensures
            path@ == self@.dash_dir,
    {
        self.dash_dir.as_str()
    }

    /// The first action of the job: to make the directory for the
    /// intermediate encode.
    pub fn start(&self) -> (action: Action)
        ensures
            action@ == ActionView::EnsureDir(self@.av1_dir),
    {
        Action::EnsureDir(self.av1_dir.as_str().to_owned())
    }

    /// One step of the job: takes the report on the action that the job
    /// handed out last, moves the job to the stage that follows, and gives
    /// the action of that stage.
    pub fn advance(&mut self, report: &Report) -> (action: Action)
        ensures
            final(self)@ == (JobView { stage: job_step(old(self)@, *report).0, ..old(self)@ }),
            action@ == job_step(old(self)@, *report).1,
    {
        match self.stage {
            JobStage::Transcode(stage) => {
                let (next, action) = self.processor.process(self.av1_dir.as_str(), stage, report);
                match next {
                    TranscodeStage::Ready(_) => {
                        self.stage = JobStage::Package(PackagingStage::EnsureDir);
                        Action::EnsureDir(self.live_dir.as_str().to_owned())
                    },
                    TranscodeStage::Failed(reason) => {
                        self.stage = JobStage::Failed(reason);
                        action
                    },
                    _ => {
                        self.stage = JobStage::Transcode(next);
                        action
                    },
                }
            },
            JobStage::Package(stage) => {
                let encoded = self.processor.output_path(self.av1_dir.as_str());
                let generator = DashGenerator::new(
                    encoded.as_str(),
                    self.dash_dir.as_str(),
                    self.seg_duration,
                );
                let (next, action) = generator.generate_dash(
                    self.live_dir.as_str(),
                    stage,
                    report,
                );
                match next {
                    PackagingStage::Done => match &self.publish {
                        Some(publish) => {
                            let action = relocate(
                                self.dash_dir.as_str(),
                                publish.root.as_str(),
                                publish.mode,
                            );
                            self.stage = JobStage::Relocate;
                            action
                        },
                        None => {
                            self.stage = JobStage::Succeeded;
                            action
                        },
                    },
                    PackagingStage::Failed(reason) => {
                        self.stage = JobStage::Failed(reason);
                        action
                    },
                    _ => {
                        self.stage = JobStage::Package(next);
                        action
                    },
                }
            },
            JobStage::Relocate => {
                self.stage = JobStage::Succeeded;
                Action::Succeed { output: join(self.dash_dir.as_str(), "main.mpd") }
            },
            JobStage::Succeeded => Action::Succeed {
                output: join(self.dash_dir.as_str(), "main.mpd"),
            },
            JobStage::Failed(reason) => Action::Fail { reason, diagnostic: String::new() },
        }
    }

    /// How the job ended, if it has: with the path of its manifest, or with
    /// the reason of its failure.
    pub fn outcome(&self) -> (outcome: Option<Result<String, FailureReason>>)
        ensures
            match self@.stage {
                JobStage::Succeeded => outcome matches Some(Ok(path)) && path@ == manifest_path(
                    self@.dash_dir,
                ),
                JobStage::Failed(reason) => outcome == Some(
                    Err::<String, FailureReason>(reason),
                ),
                _ => outcome is None,
            },
    {
        match self.stage {
            JobStage::Succeeded => Some(Ok(join(self.dash_dir.as_str(), "main.mpd"))),
            JobStage::Failed(reason) => Some(Err(reason)),
            _ => None,
        }
    }
}

/// The record of finished jobs after `job` has been brought to it: a job
/// that succeeded is added at the end, with its source path and its
/// directory; any other leaves the record as it is.
pub open spec fn recorded(results: Seq<(Seq<char>, Seq<char>)>, job: JobView) -> Seq<
    (Seq<char>, Seq<char>),
> {
    if job.stage is Succeeded {
        results.push((job.video_path, job.dash_dir))
    } else {
        results
    }
}

/// The record of a run whose jobs ended in the order of `jobs`.
pub open spec fn collected(jobs: Seq<JobView>) -> Seq<(Seq<char>, Seq<char>)>
    decreases jobs.len(),
{
    if jobs.len() == 0 {
        Seq::empty()
    } else {
        recorded(collected(jobs.drop_last()), jobs.last())
    }
}

/// Brings `job` to the record of finished jobs.
pub fn record(results: &mut Vec<(String, String)>, job: &Job)
    ensures
        pairs(final(results)@) == recorded(pairs(old(results)@), job@),
{
    match job.stage {
        JobStage::Succeeded => {
            results.push((job.video_path().to_owned(), job.dash_dir.as_str().to_owned()));
            assert(pairs(results@) =~= pairs(old(results)@).push(
                (job@.video_path, job@.dash_dir),
            ));
        },
        _ => {},
    }
}

/// The record of a run whose jobs ended in the order of `jobs`.
pub fn collect(jobs: &Vec<Job>) -> (results: Vec<(String, String)>)
    ensures
        pairs(results@) == collected(Seq::new(jobs.len() as nat, |i: int| jobs[i]@)),
{
    let ghost all = Seq::new(jobs.len() as nat, |i: int| jobs[i]@);
    let mut results: Vec<(String, String)> = Vec::new();
    let mut i: usize = 0;
    assert(pairs(results@) =~= collected(all.take(0)));
    while i < jobs.len()
        invariant
            i <= jobs.len(),
            all == Seq::new(jobs.len() as nat, |i: int| jobs[i]@),
            pairs(results@) == collected(all.take(i as int)),
        decreases jobs.len() - i,
    {
        assert(all.take(i + 1).drop_last() == all.take(i as int));
        assert(all.take(i + 1).last() == jobs[i as int]@);
        record(&mut results, &jobs[i]);
        i += 1;
    }
    assert(all.take(jobs.len() as int) == all);
    results
}

/// A job that has ended stays as it ended: no report moves it, so a job has
/// one outcome and no more.
pub proof fn lemma_outcome_is_final(job: JobView, report: Report)
    requires
        job.finished(),
    ensures
        job_step(job, report).0 == job.stage,
        job_step(job, report).1.is_final(),
{
}

/// The packaging stage never starts before the transcode stage has left its
/// output: a job enters it only from the last step of a transcode stage that
/// ends ready.
pub proof fn lemma_packaging_follows_transcode(job: JobView, report: Report)
    requires
        !(job.stage is Package),
        job_step(job, report).0 is Package,
    ensures
        job.stage matches JobStage::Transcode(stage) && next_stage(stage, report) is Ready,
        job_step(job, report).0 == JobStage::Package(PackagingStage::EnsureDir),
{
}

/// The record of a run in which every job succeeded holds every job, in the
/// order in which they ended.
pub proof fn lemma_collected_all(jobs: Seq<JobView>)
    requires
        forall|i: int| 0 <= i < jobs.len() ==> (#[trigger] jobs[i]).stage is Succeeded,
    ensures
        collected(jobs) == Seq::new(jobs.len(), |i: int| (jobs[i].video_path, jobs[i].dash_dir)),
    decreases jobs.len(),
{
    if jobs.len() > 0 {
        let before = jobs.drop_last();
        assert forall|i: int| 0 <= i < before.len() implies (#[trigger] before[i]).stage
            is Succeeded by {
            assert(before[i] == jobs[i]);
        }
        lemma_collected_all(before);
        assert(jobs.last() == jobs[jobs.len() - 1]);
        assert(collected(jobs) =~= Seq::new(
            jobs.len(),
            |i: int| (jobs[i].video_path, jobs[i].dash_dir),
        ));
    } else {
        assert(collected(jobs) =~= Seq::new(
            jobs.len(),
            |i: int| (jobs[i].video_path, jobs[i].dash_dir),
        ));
    }
}

/// A failed job leaves no trace in the record.
pub proof fn lemma_failed_is_left_out(jobs: Seq<JobView>, failed: int)
    requires
        0 <= failed < jobs.len(),
        !(jobs[failed].stage is Succeeded),
    ensures
        collected(jobs) == collected(jobs.remove(failed)),
    decreases jobs.len(),
{
    let before = jobs.drop_last();
    if failed == jobs.len() - 1 {
        assert(jobs.remove(failed) == before);
    } else {
        lemma_failed_is_left_out(before, failed);
        assert(before.remove(failed) == jobs.remove(failed).drop_last());
        assert(jobs.remove(failed).last() == jobs.last());
    }
}

/// Fault isolation: in a run of which one job failed and every other
/// succeeded, the record holds every other job, in the order in which they
/// ended, and nothing of the failed one; so does the listing of every
/// destination.
pub proof fn lemma_fault_isolation(jobs: Seq<JobView>, failed: int, base: Seq<char>)
    requires
        0 <= failed < jobs.len(),
        jobs[failed].stage is Failed,
        forall|i: int| 0 <= i < jobs.len() && i != failed ==> (#[trigger] jobs[i]).stage is Succeeded,
    ensures
        collected(jobs).len() == jobs.len() - 1,
        forall|i: int|
            0 <= i < jobs.len() - 1 ==> #[trigger] collected(jobs)[i] == ({
                let job = if i < failed {
                    jobs[i]
                } else {
                    jobs[i + 1]
                };
                (job.video_path, job.dash_dir)
            }),
        entries_for(base, collected(jobs)).len() == jobs.len() - 1,
        forall|i: int|
            0 <= i < jobs.len() - 1 ==> #[trigger] entries_for(base, collected(jobs))[i] == ({
                let job = if i < failed {
                    jobs[i]
                } else {
                    jobs[i + 1]
                };
                (title_of(job.dash_dir), url_of(base, title_of(job.dash_dir)))
            }),
{
    let others = jobs.remove(failed);
    lemma_failed_is_left_out(jobs, failed);
    assert forall|i: int| 0 <= i < others.len() implies (#[trigger] others[i]).stage
        is Succeeded by {
        if i < failed {
            assert(others[i] == jobs[i]);
        } else {
            assert(others[i] == jobs[i + 1]);
        }
    }
    lemma_collected_all(others);
}

/// An upper bound on the number of reports that a job in `stage` still
/// takes before it has ended.
pub open spec fn steps_left(stage: JobStage) -> nat {
    match stage {
        JobStage::Transcode(stage) => (12 - stage.position()) as nat,
        JobStage::Package(PackagingStage::EnsureDir) => 5,
        JobStage::Package(PackagingStage::Package) => 4,
        JobStage::Package(PackagingStage::ReadManifest) => 3,
        JobStage::Package(PackagingStage::WriteManifest) => 2,
        JobStage::Package(PackagingStage::Done) => 2,
        JobStage::Package(PackagingStage::Failed(_)) => 1,
        JobStage::Relocate => 1,
        JobStage::Succeeded => 0,
        JobStage::Failed(_) => 0,
    }
}

/// The job `job` after the reports `reports` have come in, one after the
/// other.
pub open spec fn job_after(job: JobView, reports: Seq<Report>) -> JobView
    decreases reports.len(),
{
    if reports.len() == 0 {
        job
    } else {
        let before = job_after(job, reports.drop_last());
        JobView { stage: job_step(before, reports.last()).0, ..before }
    }
}

/// Every report brings a job that has not ended nearer to its end.
pub proof fn lemma_step_nears_end(job: JobView, report: Report)
    ensures
        job.finished() <==> steps_left(job.stage) == 0,
        !job.finished() ==> steps_left(job_step(job, report).0) < steps_left(job.stage),
{
    match job.stage {
        JobStage::Transcode(stage) => {
            crate::video_processor::lemma_step_advances(stage, report);
        },
        _ => {},
    }
}

/// Every job ends: a new job within twelve reports, whatever they say, and
/// any job within the number that [`steps_left`] gives for its stage.
pub proof fn lemma_job_ends(job: JobView, reports: Seq<Report>)
    ensures
        steps_left(job_after(job, reports).stage) + reports.len() <= steps_left(job.stage)
            || job_after(job, reports).finished(),
        reports.len() >= steps_left(job.stage) ==> job_after(job, reports).finished(),
        steps_left(JobStage::Transcode(TranscodeStage::EnsureDir)) == 12,
    decreases reports.len(),
{
    if reports.len() > 0 {
        let before = job_after(job, reports.drop_last());
        lemma_job_ends(job, reports.drop_last());
        lemma_step_nears_end(before, reports.last());
        if before.finished() {
            lemma_outcome_is_final(before, reports.last());
        }
    }
    lemma_step_nears_end(job_after(job, reports), Report::Done);
}

} // verus!
