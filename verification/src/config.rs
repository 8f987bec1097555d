//! The settings of a run, read from the texts of its options.

use vstd::prelude::*;
use crate::command::texts;
use crate::text::{parse_unsigned, parsed_unsigned, same_text};

verus! {

/// How a finished job reaches the publish root.
#[derive(Debug, Clone, Copy, PartialEq, Eq, Structural)]
pub enum RelocationMode {
    /// The directory of the job is copied and stays where it is.
    Copy,
    /// The directory of the job is moved.
    Move,
}

/// The list of destinations was not a list of texts.
#[derive(Debug, Clone, Copy, PartialEq, Eq, Structural)]
pub struct ConfigParseFailure;

/// `serde_json::Error`: why a text could not be read or a value not written.
#[verifier::external_type_specification]
#[verifier::external_body]
pub struct ExJsonError(serde_json::Error);

/// The list of texts that a JSON text denotes, as `serde_json::from_str`
/// reads it; nothing where the text is no JSON array of strings.
pub uninterp spec fn json_texts(text: Seq<char>) -> Option<Seq<Seq<char>>>;

/// Calls `serde_json::from_str` for a list of strings. Taken on faith: that
/// what it returns depends on the text alone, so that [`json_texts`] can
/// name it. Nothing is claimed of which texts it accepts.
#[verifier::external_body]
fn read_json_texts(text: &str) -> (read: Result<Vec<String>, serde_json::Error>)
    ensures
        match read {
            Ok(list) => json_texts(text@) == Some(texts(list@)),
            Err(_) => json_texts(text@) is None,
        },
{
    serde_json::from_str::<Vec<String>>(text)
}

/// The length of a segment where none is given or the text is no number.
pub const DEFAULT_SEGMENT_SECONDS: u32 = 10;

/// The number of workers where none is given or the text is no number.
pub const DEFAULT_WORKERS: usize = 2;

/// The destinations that the option's text stands for: none where the
/// option is absent or its text is no list of texts.
pub open spec fn configured_destinations(serve: Option<Seq<char>>) -> Seq<Seq<char>> {
    match serve {
        Some(text) => match json_texts(text) {
            Some(list) => list,
            None => Seq::empty(),
        },
        None => Seq::empty(),
    }
}

/// What has been read as a list of destinations: the list, or the failure
/// to read one.
pub fn destinations_read(read: Result<Vec<String>, serde_json::Error>) -> (list: Result<
    Vec<String>,
    ConfigParseFailure,
>)
    ensures
        match (read, list) {
            (Ok(a), Ok(b)) => a == b,
            (Err(_), Err(_)) => true,
            _ => false,
        },
{
    match read {
        Ok(list) => Ok(list),
        Err(_) => Err(ConfigParseFailure),
    }
}

/// Reads a list of destinations from a JSON array of strings.
pub fn parse_destinations(text: &str) -> (list: Result<Vec<String>, ConfigParseFailure>)
    ensures
        match list {
            Ok(list) => json_texts(text@) == Some(texts(list@)),
            Err(_) => json_texts(text@) is None,
        },
{
    destinations_read(read_json_texts(text))
}

/// The destinations of a run. A text that cannot be read gives none: the
/// run goes on and writes no listing.
pub fn destinations(serve: Option<&str>) -> (list: Vec<String>)
    ensures
        texts(list@) == configured_destinations(
            match serve {
                Some(text) => Some(text@),
                None => None,
            },
        ),
{
    let list: Vec<String> = match serve {
        Some(text) => match parse_destinations(text) {
            Ok(list) => list,
            Err(_) => Vec::new(),
        },
        None => Vec::new(),
    };
    assert(texts(Seq::<String>::empty()) =~= Seq::<Seq<char>>::empty());
    list
}

/// The length of a segment in seconds: the number that `text` denotes, or
/// [`DEFAULT_SEGMENT_SECONDS`] where it denotes none that a `u32` holds.
pub fn parse_segment_duration(text: &str) -> (seconds: u32)
    ensures
        seconds == match parsed_unsigned(text@, u32::MAX as nat) {
            Some(n) => n as u32,
            None => DEFAULT_SEGMENT_SECONDS,
        },
{
    match parse_unsigned(text, 0xffff_ffff) {
        Some(n) => n as u32,
        None => DEFAULT_SEGMENT_SECONDS,
    }
}

/// The number of workers: the number that `text` denotes, or
/// [`DEFAULT_WORKERS`] where it denotes none that a `usize` holds.
pub fn parse_worker_count(text: &str) -> (workers: usize)
    ensures
        workers == match parsed_unsigned(text@, usize::MAX as nat) {
            Some(n) => n as usize,
            None => DEFAULT_WORKERS,
        },
{
    match parse_unsigned(text, usize::MAX as u64) {
        Some(n) => n as usize,
        None => DEFAULT_WORKERS,
    }
}

/// How finished jobs reach the publish root: they are copied where the flag
/// is `true`, and moved where it is anything else.
pub fn relocation_mode(flag: &str) -> (mode: RelocationMode)
    ensures
        mode == if flag@ == "true"@ {
            RelocationMode::Copy
        } else {
            RelocationMode::Move
        },
{
    if same_text(flag, "true") {
        RelocationMode::Copy
    } else {
        RelocationMode::Move
    }
}

} // verus!
