//! The listings of finished jobs, one per destination.

use vstd::prelude::*;
use crate::dash_generator::manifest_name;
use crate::text::{decimal, decimal_text, from_chars, to_chars};
use crate::utils::{file_name, file_name_chars};
use vstd::string::StringExecFns;

verus! {

/// One finished job as a destination lists it.
#[derive(Debug, Clone, PartialEq, Eq)]
pub struct CatalogEntry {
    /// The name of the directory of the job.
    pub title: String,
    /// Where the destination serves the manifest of the job.
    pub url: String,
}

/// The listing of one destination.
#[derive(Debug, Clone, PartialEq, Eq)]
pub struct Listing {
    /// The name of the file to write.
    pub file_name: String,
    /// The finished jobs, in the order in which they were recorded.
    pub entries: Vec<CatalogEntry>,
    /// The content of the file: the entries as JSON.
    pub content: String,
}

/// The texts of a list of pairs of strings.
pub open spec fn pairs(v: Seq<(String, String)>) -> Seq<(Seq<char>, Seq<char>)> {
    Seq::new(v.len(), |i: int| (v[i].0@, v[i].1@))
}

/// The texts of a list of records.
pub open spec fn records(v: Seq<Vec<(String, String)>>) -> Seq<Seq<(Seq<char>, Seq<char>)>> {
    Seq::new(v.len(), |i: int| pairs(v[i]@))
}

/// Titles and urls of a list of entries.
pub open spec fn entry_texts(v: Seq<CatalogEntry>) -> Seq<(Seq<char>, Seq<char>)> {
    Seq::new(v.len(), |i: int| (v[i].title@, v[i].url@))
}

/// The title of the job that worked in `dash_dir`: the name of that
/// directory.
pub open spec fn title_of(dash_dir: Seq<char>) -> Seq<char> {
    file_name(dash_dir)
}

/// Where the destination `base` serves the manifest of the job `title`.
pub open spec fn url_of(base: Seq<char>, title: Seq<char>) -> Seq<char> {
    base + "/"@ + title + "/"@ + manifest_name()
}

/// The entries of the destination `base` for the finished jobs `videos`,
/// each a source path with the directory of its job.
pub open spec fn entries_for(base: Seq<char>, videos: Seq<(Seq<char>, Seq<char>)>) -> Seq<
    (Seq<char>, Seq<char>),
> {
    Seq::new(videos.len(), |j: int| (title_of(videos[j].1), url_of(base, title_of(videos[j].1))))
}

/// An entry as a record of named fields.
pub open spec fn record_of(entry: (Seq<char>, Seq<char>)) -> Seq<(Seq<char>, Seq<char>)> {
    seq![("title"@, entry.0), ("url"@, entry.1)]
}

/// The name of the file for the destination at `index` of the configured
/// list, counted from 0: the files are numbered from 1.
pub open spec fn listing_name(index: nat) -> Seq<char> {
    "server_"@ + decimal(index + 1) + ".json"@
}

/// The JSON text of a list of records, each a list of named texts, as
/// `serde_json::to_string_pretty` writes an array of objects; nothing where
/// it fails.
pub uninterp spec fn pretty_json(records: Seq<Seq<(Seq<char>, Seq<char>)>>) -> Option<Seq<char>>;

/// Calls `serde_json::to_string_pretty` on an array of objects, one for each
/// record, whose members are the named texts of the record. Taken on faith:
/// that what it returns depends on the names and texts alone, so that
/// [`pretty_json`] can name it. Nothing is claimed of the text itself.
#[verifier::external_body]
fn write_json_records(list: &Vec<Vec<(String, String)>>) -> (written: Result<
    String,
    serde_json::Error,
>)
    ensures
        match written {
            Ok(text) => pretty_json(records(list@)) == Some(text@),
            Err(_) => pretty_json(records(list@)) is None,
        },
{
    let values: Vec<serde_json::Value> = list.iter().map(
        |fields| serde_json::Value::Object(
            fields.iter().map(|(k, v)| (k.clone(), serde_json::Value::String(v.clone()))).collect(),
        ),
    ).collect();
    serde_json::to_string_pretty(&values)
}

/// The content of the listing that holds `entries`: their JSON text, or an
/// empty array where none could be written.
pub open spec fn listing_content(entries: Seq<(Seq<char>, Seq<char>)>) -> Seq<char> {
    match pretty_json(Seq::new(entries.len(), |i: int| record_of(entries[i]))) {
        Some(text) => text,
        None => "[]"@,
    }
}

/// The content of a listing, given what writing its entries as JSON
/// returned: the text, or an empty array in place of a failure.
pub fn listing_text(written: Result<String, serde_json::Error>) -> (content: String)
    ensures
        content@ == match written {
            Ok(text) => text@,
            Err(_) => "[]"@,
        },
{
    match written {
        Ok(text) => text,
        Err(_) => "[]".to_owned(),
    }
}

/// The entry of the destination `base` for the job that worked in
/// `dash_dir`.
pub fn catalog_entry(base: &str, dash_dir: &str) -> (entry: CatalogEntry)
    ensures
        entry.title@ == title_of(dash_dir@),
        entry.url@ == url_of(base@, title_of(dash_dir@)),
{
    let dir = to_chars(dash_dir);
    let name = file_name_chars(&dir);
    let title = from_chars(&name);
    let mut url = base.to_owned();
    url.append("/");
    url.append(title.as_str());
    url.append("/");
    url.append("main.mpd");
    CatalogEntry { title, url }
}

/// The entries of the destination `base` for the finished jobs
/// `processed_videos`, in their order.
pub fn catalog_entries(base: &str, processed_videos: &Vec<(String, String)>) -> (entries: Vec<
    CatalogEntry,
>)
    ensures
        entry_texts(entries@) == entries_for(base@, pairs(processed_videos@)),
{
    let mut entries: Vec<CatalogEntry> = Vec::new();
    let mut j: usize = 0;
    let ghost goal = entries_for(base@, pairs(processed_videos@));
    while j < processed_videos.len()
        invariant
            j <= processed_videos.len(),
            goal == entries_for(base@, pairs(processed_videos@)),
            entries.len() == j,
            forall|k: int| 0 <= k < j ==> (#[trigger] entries[k]).title@ == goal[k].0 && entries[k].url@ == goal[k].1,
        decreases processed_videos.len() - j,
    {
        let entry = catalog_entry(base, processed_videos[j].1.as_str());
        assert(pairs(processed_videos@)[j as int].1 == processed_videos[j as int].1@);
        entries.push(entry);
        j += 1;
    }
    assert(entry_texts(entries@) =~= goal);
    entries
}

/// The JSON text of `entries`.
pub fn render_entries(entries: &Vec<CatalogEntry>) -> (content: String)
    ensures
        content@ == listing_content(entry_texts(entries@)),
{
    let mut list: Vec<Vec<(String, String)>> = Vec::new();
    let mut i: usize = 0;
    let ghost goal = Seq::new(entries.len() as nat, |i: int| record_of(entry_texts(entries@)[i]));
    while i < entries.len()
        invariant
            i <= entries.len(),
            goal == Seq::new(entries.len() as nat, |i: int| record_of(entry_texts(entries@)[i])),
            list.len() == i,
            forall|k: int| 0 <= k < i ==> pairs((#[trigger] list[k])@) == goal[k],
        decreases entries.len() - i,
    {
        let mut fields: Vec<(String, String)> = Vec::new();
        fields.push(("title".to_owned(), entries[i].title.clone()));
        fields.push(("url".to_owned(), entries[i].url.clone()));
        assert(pairs(fields@) =~= record_of(entry_texts(entries@)[i as int]));
        list.push(fields);
        i += 1;
    }
    assert(records(list@) =~= goal);
    listing_text(write_json_records(&list))
}

/// The name of the file for the destination at `index` of the configured
/// list.
pub fn listing_file_name(index: usize) -> (name: String)
    requires
        index < usize::MAX,
    ensures
        name@ == listing_name(index as nat),
{
    let number = decimal_text((index + 1) as u64);
    let mut name = "server_".to_owned();
    name.append(number.as_str());
    name.append(".json");
    name
}

/// The listings of a run: one for each destination of `servers`, each with
/// an entry for every finished job of `processed_videos`, a source path with
/// the directory of its job. There is none where no job finished or no
/// destination is configured.
pub fn generate_server_json(processed_videos: &Vec<(String, String)>, servers: &Vec<String>) -> (
    listings: Vec<Listing>
)
    ensures
        servers.len() == 0 || processed_videos.len() == 0 ==> listings.len() == 0,
        servers.len() > 0 && processed_videos.len() > 0 ==> listings.len() == servers.len(),
        forall|i: int|
            0 <= i < listings.len() ==> {
                &&& (#[trigger] listings[i]).file_name@ == listing_name(i as nat)
                &&& entry_texts(listings[i].entries@) == entries_for(
                    servers[i]@,
                    pairs(processed_videos@),
                )
                &&& listings[i].content@ == listing_content(entry_texts(listings[i].entries@))
            },
{
    let mut listings: Vec<Listing> = Vec::new();
    if servers.len() == 0 || processed_videos.len() == 0 {
        return listings;
    }
    let mut i: usize = 0;
    while i < servers.len()
        invariant
            i <= servers.len(),
            listings.len() == i,
            forall|k: int|
                0 <= k < i ==> {
                    &&& (#[trigger] listings[k]).file_name@ == listing_name(k as nat)
                    &&& entry_texts(listings[k].entries@) == entries_for(
                        servers[k]@,
                        pairs(processed_videos@),
                    )
                    &&& listings[k].content@ == listing_content(entry_texts(listings[k].entries@))
                },
        decreases servers.len() - i,
    {
        let entries = catalog_entries(servers[i].as_str(), processed_videos);
        let content = render_entries(&entries);
        let file_name = listing_file_name(i);
        listings.push(Listing { file_name, entries, content });
        i += 1;
    }
    listings
}

} // verus!
