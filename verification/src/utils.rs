//! The files to convert and the directories that a conversion works in.
//!
//! A path is text whose parts are separated by `/`. Separators at its end
//! count for nothing, and neither does a part that is a single `.`, unless it
//! stands in front.

use vstd::prelude::*;
use crate::command::{push_text, texts};
use crate::text::{from_chars, lowercased, same_text, to_chars};

verus! {

/// Where `c` stands last in `s`, or -1 where it does not stand in `s`.
pub open spec fn last_index_of(s: Seq<char>, c: char) -> int
    decreases s.len(),
{
    if s.len() == 0 {
        -1
    } else if s.last() == c {
        s.len() - 1
    } else {
        last_index_of(s.drop_last(), c)
    }
}

/// A path without what counts for nothing at its end: separators, and parts
/// that are a single `.`. A `/` in front stays, and so does a `.` that is
/// all there is.
pub open spec fn trimmed_path(path: Seq<char>) -> Seq<char>
    decreases path.len(),
{
    let n = path.len() as int;
    if n >= 2 && (path[n - 1] == '/' || (path[n - 1] == '.' && path[n - 2] == '/')) {
        trimmed_path(path.drop_last())
    } else {
        path
    }
}

/// The last part of a path, as it stands in the text: what follows the last
/// `/` of the trimmed path, or all of it.
pub open spec fn last_part(path: Seq<char>) -> Seq<char> {
    let t = trimmed_path(path);
    t.subrange(last_index_of(t, '/') + 1, t.len() as int)
}

/// The name of the file or directory that a path leads to: its last part.
/// A path that ends in `..`, that is a single `.`, or that holds no part at
/// all leads to nothing that has a name: its file name is empty.
pub open spec fn file_name(path: Seq<char>) -> Seq<char> {
    let part = last_part(path);
    if part == seq!['.'] || part == seq!['.', '.'] {
        Seq::empty()
    } else {
        part
    }
}

/// The directory that holds the last part of a path: what stands before that
/// part, trimmed; nothing where the path is that part alone; `.` where the
/// path is empty or only `/`.
pub open spec fn parent(path: Seq<char>) -> Seq<char> {
    let t = trimmed_path(path);
    let k = last_index_of(t, '/');
    if t.len() == 0 || t == seq!['/'] {
        seq!['.']
    } else if k < 0 {
        Seq::empty()
    } else {
        trimmed_path(t.subrange(0, k + 1))
    }
}

/// A file name without its extension: what stands before its last `.`, or
/// all of it where it holds no `.` or only one in front.
pub open spec fn file_stem(name: Seq<char>) -> Seq<char> {
    let k = last_index_of(name, '.');
    if k <= 0 {
        name
    } else {
        name.subrange(0, k)
    }
}

/// The extension of a file name: what follows its last `.`, where it holds
/// one that does not stand in front.
pub open spec fn extension(name: Seq<char>) -> Option<Seq<char>> {
    let k = last_index_of(name, '.');
    if k <= 0 {
        None
    } else {
        Some(name.subrange(k + 1, name.len() as int))
    }
}

/// The path of `name` within the directory `dir`.
pub open spec fn joined(dir: Seq<char>, name: Seq<char>) -> Seq<char> {
    if dir.len() == 0 {
        name
    } else if dir.last() == '/' {
        dir + name
    } else {
        dir + seq!['/'] + name
    }
}

/// The name of the directory for intermediate encodes.
pub open spec fn encode_dir_name() -> Seq<char> {
    "av1"@
}

/// The name of the directory for media segments.
pub open spec fn segment_dir_name() -> Seq<char> {
    "live"@
}

/// The directory that the conversion of `video_path` works in: beside the
/// file and named like it, without the extension.
pub open spec fn output_dir(video_path: Seq<char>) -> Seq<char> {
    joined(parent(video_path), file_stem(file_name(video_path)))
}

/// The extensions, in lower case, of the files that are converted.
pub open spec fn video_extensions() -> Seq<Seq<char>> {
    seq!["mp4"@, "mkv"@, "avi"@, "mov"@, "webm"@, "flv"@, "wmv"@]
}

/// A path names a video file: its last part has an extension that, in lower
/// case, is one of [`video_extensions`].
pub open spec fn is_video_path(path: Seq<char>) -> bool {
    match extension(file_name(path)) {
        Some(ext) => video_extensions().contains(lowercased(ext)),
        None => false,
    }
}

/// Those of `paths` that name a video file, in their order.
pub open spec fn video_paths(paths: Seq<Seq<char>>) -> Seq<Seq<char>> {
    paths.filter(|p: Seq<char>| is_video_path(p))
}

/// Where `c` stands last among the first `n` characters of `s`.
pub fn find_last_before(s: &Vec<char>, n: usize, c: char) -> (found: Option<usize>)
    requires
        n <= s.len(),
    ensures
        match found {
            Some(k) => last_index_of(s@.take(n as int), c) == k && k < n,
            None => last_index_of(s@.take(n as int), c) == -1,
        },
{
    let mut m: usize = n;
    while m > 0
        invariant
            m <= n <= s.len(),
            last_index_of(s@.take(n as int), c) == last_index_of(s@.take(m as int), c),
        decreases m,
    {
        if s[m - 1] == c {
            return Some(m - 1);
        }
        assert(s@.take(m as int).drop_last() == s@.take(m - 1));
        m -= 1;
    }
    None
}

/// Where `c` stands last in `s`.
pub fn find_last(s: &Vec<char>, c: char) -> (found: Option<usize>)
    ensures
        match found {
            Some(k) => last_index_of(s@, c) == k && k < s.len(),
            None => last_index_of(s@, c) == -1,
        },
{
    assert(s@.take(s.len() as int) == s@);
    find_last_before(s, s.len(), c)
}

/// How many of the first `n` characters of `s` are left when that much of
/// the path is trimmed.
pub fn trimmed_len(s: &Vec<char>, n: usize) -> (m: usize)
    requires
        n <= s.len(),
    ensures
        m <= n,
        trimmed_path(s@.take(n as int)) == s@.take(m as int),
{
    let mut m: usize = n;
    while m >= 2 && (s[m - 1] == '/' || (s[m - 1] == '.' && s[m - 2] == '/'))
        invariant
            m <= n <= s.len(),
            trimmed_path(s@.take(n as int)) == trimmed_path(s@.take(m as int)),
        decreases m,
    {
        assert(s@.take(m as int).drop_last() == s@.take(m - 1));
        m -= 1;
    }
    m
}

/// The characters of `s` from `from` up to `to`.
pub fn slice_chars(s: &Vec<char>, from: usize, to: usize) -> (out: Vec<char>)
    requires
        from <= to <= s.len(),
    ensures
        out@ == s@.subrange(from as int, to as int),
{
    let mut out: Vec<char> = Vec::new();
    let mut i: usize = from;
    while i < to
        invariant
            from <= i <= to <= s.len(),
            out@ == s@.subrange(from as int, i as int),
        decreases to - i,
    {
        out.push(s[i]);
        assert(s@.subrange(from as int, i + 1) == s@.subrange(from as int, i as int).push(
            s@[i as int],
        ));
        i += 1;
    }
    out
}

/// The file name of `path`.
pub fn file_name_chars(path: &Vec<char>) -> (name: Vec<char>)
    ensures
        name@ == file_name(path@),
{
    assert(path@.take(path.len() as int) == path@);
    let n = trimmed_len(path, path.len());
    let from: usize = match find_last_before(path, n, '/') {
        Some(k) => k + 1,
        None => 0,
    };
    assert(path@.take(n as int).subrange(from as int, n as int) == path@.subrange(
        from as int,
        n as int,
    ));
    let part = slice_chars(path, from, n);
    let dots: bool = (part.len() == 1 && part[0] == '.') || (part.len() == 2 && part[0] == '.'
        && part[1] == '.');
    assert(dots == (part@ == seq!['.'] || part@ == seq!['.', '.'])) by {
        if dots {
            assert(part@ =~= seq!['.'] || part@ =~= seq!['.', '.']);
        }
    }
    if dots {
        Vec::new()
    } else {
        part
    }
}

/// The directory that holds the last part of `path`.
pub fn parent_chars(path: &Vec<char>) -> (dir: Vec<char>)
    ensures
        dir@ == parent(path@),
{
    assert(path@.take(path.len() as int) == path@);
    let n = trimmed_len(path, path.len());
    let ghost t = path@.take(n as int);
    let nothing: bool = n == 0 || (n == 1 && path[0] == '/');
    assert(nothing == (t.len() == 0 || t == seq!['/'])) by {
        assert(t.len() == n);
        if n == 1 && path[0] == '/' {
            assert(t =~= seq!['/']);
        }
        if t == seq!['/'] {
            assert(seq!['/'].len() == 1);
            assert(t[0] == seq!['/'][0]);
        }
    }
    if nothing {
        let mut here: Vec<char> = Vec::new();
        here.push('.');
        assert(here@ == seq!['.']);
        here
    } else {
        match find_last_before(path, n, '/') {
            Some(k) => {
                assert(t.subrange(0, k + 1) == path@.take(k + 1));
                let m = trimmed_len(path, k + 1);
                assert(path@.take(m as int) == path@.subrange(0, m as int));
                slice_chars(path, 0, m)
            },
            None => Vec::new(),
        }
    }
}

/// `name` without its extension.
pub fn file_stem_chars(name: &Vec<char>) -> (stem: Vec<char>)
    ensures
        stem@ == file_stem(name@),
{
    let all = slice_chars(name, 0, name.len());
    assert(all@ == name@);
    match find_last(name, '.') {
        Some(k) => if k == 0 {
            all
        } else {
            slice_chars(name, 0, k)
        },
        None => all,
    }
}

/// The path of `name` within `dir`.
pub fn join_chars(dir: &Vec<char>, name: &Vec<char>) -> (path: Vec<char>)
    ensures
        path@ == joined(dir@, name@),
{
    let mut path: Vec<char> = slice_chars(dir, 0, dir.len());
    assert(path@ == dir@);
    if dir.len() > 0 && dir[dir.len() - 1] != '/' {
        path.push('/');
    }
    let ghost head = path@;
    let mut i: usize = 0;
    while i < name.len()
        invariant
            i <= name.len(),
            path@ == head + name@.take(i as int),
        decreases name.len() - i,
    {
        path.push(name[i]);
        assert(name@.take(i + 1) == name@.take(i as int).push(name@[i as int]));
        i += 1;
    }
    assert(name@.take(name.len() as int) == name@);
    path
}

/// The path of `name` within `dir`.
pub fn join(dir: &str, name: &str) -> (path: String)
    ensures
        path@ == joined(dir@, name@),
{
    let d = to_chars(dir);
    let n = to_chars(name);
    let p = join_chars(&d, &n);
    from_chars(&p)
}

/// The directories that the conversion of `video_path` works in: the
/// directory of the job, beside the file and named like it without the
/// extension; within it `av1` for the intermediate encode and `live` for the
/// segments.
pub fn setup_output_dirs(video_path: &str) -> (dirs: (String, String, String))
    ensures
        dirs.0@ == output_dir(video_path@),
        dirs.1@ == joined(output_dir(video_path@), encode_dir_name()),
        dirs.2@ == joined(output_dir(video_path@), segment_dir_name()),
{
    let path = to_chars(video_path);
    let name = file_name_chars(&path);
    let stem = file_stem_chars(&name);
    let dir = parent_chars(&path);
    let dash_dir = join_chars(&dir, &stem);
    let av1 = to_chars("av1");
    let live = to_chars("live");
    let av1_dir = join_chars(&dash_dir, &av1);
    let live_dir = join_chars(&dash_dir, &live);
    (from_chars(&dash_dir), from_chars(&av1_dir), from_chars(&live_dir))
}

/// Whether `lower`, taken as it is, is one of the extensions of the files
/// that are converted.
pub fn is_listed_extension(lower: &str) -> (listed: bool)
    ensures
        listed == video_extensions().contains(lower@),
{
    let ghost all = video_extensions();
    assert(all[0] == "mp4"@ && all[1] == "mkv"@ && all[2] == "avi"@ && all[3] == "mov"@ && all[4]
        == "webm"@ && all[5] == "flv"@ && all[6] == "wmv"@);
    same_text(lower, "mp4") || same_text(lower, "mkv") || same_text(lower, "avi") || same_text(
        lower,
        "mov",
    ) || same_text(lower, "webm") || same_text(lower, "flv") || same_text(lower, "wmv")
}

/// Whether `ext`, in lower case, is one of the extensions of the files that
/// are converted.
pub fn is_video_extension(ext: &str) -> (listed: bool)
    ensures
        listed == video_extensions().contains(lowercased(ext@)),
{
    let lower = ext.to_lowercase();
    is_listed_extension(lower.as_str())
}

/// Whether `path` names a video file.
pub fn is_video_file(path: &str) -> (video: bool)
    ensures
        video == is_video_path(path@),
{
    let chars = to_chars(path);
    let name = file_name_chars(&chars);
    match find_last(&name, '.') {
        Some(k) => if k == 0 {
            false
        } else {
            let ext = slice_chars(&name, k + 1, name.len());
            let ext = from_chars(&ext);
            is_video_extension(ext.as_str())
        },
        None => false,
    }
}

/// Those of the files `found` that are converted: the ones that
/// [`is_video_file`] accepts, in the order in which they were found.
pub fn get_video_files(found: &Vec<String>) -> (videos: Vec<String>)
    ensures
        texts(videos@) == video_paths(texts(found@)),
{
    let ghost all = texts(found@);
    let ghost pred = |p: Seq<char>| is_video_path(p);
    let mut videos: Vec<String> = Vec::new();
    let mut i: usize = 0;
    proof {
        reveal(Seq::filter);
        assert(all.take(0).filter(pred) =~= Seq::<Seq<char>>::empty());
        assert(texts(videos@) =~= Seq::<Seq<char>>::empty());
    }
    while i < found.len()
        invariant
            i <= found.len(),
            all == texts(found@),
            pred == (|p: Seq<char>| is_video_path(p)),
            texts(videos@) == all.take(i as int).filter(pred),
        decreases found.len() - i,
    {
        proof {
            reveal(Seq::filter);
            assert(all.take(i + 1).drop_last() == all.take(i as int));
            assert(all.take(i + 1).last() == found@[i as int]@);
        }
        if is_video_file(found[i].as_str()) {
            push_text(&mut videos, found[i].as_str());
        }
        i += 1;
    }
    assert(all.take(found.len() as int) == all);
    videos
}

} // verus!
