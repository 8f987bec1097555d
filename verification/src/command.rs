//! What the pipeline asks of its surroundings, and what it is told in return.
//!
//! The library never starts a process or touches a file. Each step of a
//! pipeline hands out one [`Action`]; the caller performs it and reports what
//! came of it as a [`Report`], on which the next step decides.

use vstd::prelude::*;

verus! {

/// Why a job ended without output.
#[derive(Debug, Clone, Copy, PartialEq, Eq, Structural)]
pub enum FailureReason {
    /// A directory could not be made, or a file not copied, read or written.
    IOFailure,
    /// Neither the preferred encoder nor the fallback produced a file.
    EncodeFailed,
    /// The encoded file holds no readable video packet.
    NoVideoStream,
    /// The segmenter could not be started or ended with an error.
    PackagingFailed,
}

/// A program and the arguments to start it with.
#[derive(Debug, Clone, PartialEq, Eq)]
pub struct CommandLine {
    pub program: String,
    pub args: Vec<String>,
}

/// The text of a [`CommandLine`].
pub struct CommandLineView {
    pub program: Seq<char>,
    pub args: Seq<Seq<char>>,
}

/// The texts that a sequence of strings holds, in order.
pub open spec fn texts(v: Seq<String>) -> Seq<Seq<char>> {
    Seq::new(v.len(), |i: int| v[i]@)
}

impl View for CommandLine {
    type V = CommandLineView;

    open spec fn view(&self) -> CommandLineView {
        CommandLineView { program: self.program@, args: texts(self.args@) }
    }
}

/// One thing for the caller to do.
#[derive(Debug, Clone, PartialEq, Eq)]
pub enum Action {
    /// Make the directory, with the directories above it, unless it exists.
    EnsureDir(String),
    /// Start the program, wait for its end and capture what it prints.
    Run(CommandLine),
    /// Copy the file byte for byte.
    CopyFile { from: String, to: String },
    /// Read the file as text.
    ReadText(String),
    /// Replace the content of the file.
    WriteText { path: String, content: String },
    /// Copy the directory `from`, under its own name, into the directory `into`.
    CopyTree { from: String, into: String },
    /// Move the directory `from` to the place `to`.
    MoveTree { from: String, to: String },
    /// Nothing is left to do: the output stands at `output`.
    Succeed { output: String },
    /// Nothing is left to do: there is no output. `diagnostic` holds what
    /// the failing tool wrote to its error stream, if anything.
    Fail { reason: FailureReason, diagnostic: String },
}

/// The text of an [`Action`].
pub enum ActionView {
    EnsureDir(Seq<char>),
    Run(CommandLineView),
    CopyFile { from: Seq<char>, to: Seq<char> },
    ReadText(Seq<char>),
    WriteText { path: Seq<char>, content: Seq<char> },
    CopyTree { from: Seq<char>, into: Seq<char> },
    MoveTree { from: Seq<char>, to: Seq<char> },
    Succeed { output: Seq<char> },
    Fail { reason: FailureReason, diagnostic: Seq<char> },
}

impl View for Action {
    type V = ActionView;

    open spec fn view(&self) -> ActionView {
        match *self {
            Action::EnsureDir(dir) => ActionView::EnsureDir(dir@),
            Action::Run(command) => ActionView::Run(command@),
            Action::CopyFile { from, to } => ActionView::CopyFile { from: from@, to: to@ },
            Action::ReadText(path) => ActionView::ReadText(path@),
            Action::WriteText { path, content } => ActionView::WriteText {
                path: path@,
                content: content@,
            },
            Action::CopyTree { from, into } => ActionView::CopyTree { from: from@, into: into@ },
            Action::MoveTree { from, to } => ActionView::MoveTree { from: from@, to: to@ },
            Action::Succeed { output } => ActionView::Succeed { output: output@ },
            Action::Fail { reason, diagnostic } => ActionView::Fail {
                reason,
                diagnostic: diagnostic@,
            },
        }
    }
}

impl ActionView {
    /// The action ends a pipeline.
    pub open spec fn is_final(self) -> bool {
        self is Succeed || self is Fail
    }
}

/// What came of an [`Action`].
#[derive(Debug, Clone, PartialEq, Eq)]
pub enum Report {
    /// The program could not be started.
    SpawnFailed,
    /// The program ran to its end.
    Exited { success: bool, stdout: String, stderr: String },
    /// The file operation was carried out.
    Done,
    /// The file operation failed.
    IoFailed,
    /// The text that was read.
    Text(String),
}

impl Report {
    /// The program ran and ended without error.
    pub open spec fn ran_well(&self) -> bool {
        match *self {
            Report::Exited { success, .. } => success,
            _ => false,
        }
    }

    /// What the program printed, where it ran at all.
    pub open spec fn printed(&self) -> Option<Seq<char>> {
        match *self {
            Report::Exited { stdout, .. } => Some(stdout@),
            _ => None,
        }
    }

    /// What the program wrote to its error stream; nothing where it did not
    /// run.
    pub open spec fn complaint(&self) -> Seq<char> {
        match *self {
            Report::Exited { stderr, .. } => stderr@,
            _ => Seq::empty(),
        }
    }

    /// The text that was read, where the report holds one.
    pub open spec fn text(&self) -> Option<Seq<char>> {
        match *self {
            Report::Text(content) => Some(content@),
            _ => None,
        }
    }

    /// Whether the program ran and ended without error.
    pub fn has_run_well(&self) -> (well: bool)
        ensures
            well == self.ran_well(),
    {
        match self {
            Report::Exited { success, .. } => *success,
            _ => false,
        }
    }

    /// Whether the file operation was carried out.
    pub fn is_done(&self) -> (done: bool)
        ensures
            done == (*self is Done),
    {
        match self {
            Report::Done => true,
            _ => false,
        }
    }
}

/// Appends a copy of `text` to `list`.
pub fn push_text(list: &mut Vec<String>, text: &str)
    ensures
        texts(final(list)@) == texts(old(list)@).push(text@),
{
    list.push(text.to_owned());
    assert(texts(list@) =~= texts(old(list)@).push(text@));
}

/// A list of arguments that holds none yet.
pub fn no_args() -> (list: Vec<String>)
    ensures
        texts(list@) == Seq::<Seq<char>>::empty(),
{
    let list: Vec<String> = Vec::new();
    assert(texts(list@) =~= Seq::<Seq<char>>::empty());
    list
}

} // verus!
