//! Rewriting of the path references that a segmenter leaves in a manifest.
//!
//! A manifest names its segments by paths that still hold the folders used
//! while encoding, such as `./clip/live/init_0.m4s` or `clip/live/init_0.m4s`.
//! Served from another root those paths are wrong. The rewrite unifies the
//! separators to `/` and cuts every reference down to the part that starts at
//! the segment folder: `live/init_0.m4s`. It works on the text alone and
//! knows nothing of the structure around a reference.
//!
//! A reference is at most one folder name followed by `/`, then `live/`, then
//! the rest up to the next `"` or the end of the text; a `./` in front of it
//! belongs to it. A folder name is one or more characters other than `/` and
//! `"`; the rest is one or more characters other than `"`. The text is read
//! from left to right, a reference is taken at the first place where one
//! starts, `./` and the folder name are preferred to their absence, and
//! reading goes on behind the reference. A reference that starts with `live/`
//! is taken like any other and left as it is.

use vstd::prelude::*;
use crate::text::{to_chars, from_chars, same_chars};

verus! {

/// The name of the segment folder with its separator: what every rewritten
/// reference starts with.
pub open spec fn segment_root() -> Seq<char> {
    seq!['l', 'i', 'v', 'e', '/']
}

/// `text` with every `\` turned into `/`.
pub open spec fn unified(text: Seq<char>) -> Seq<char> {
    Seq::new(text.len(), |i: int| if text[i] == '\\' { '/' } else { text[i] })
}

/// How many characters from `i` on belong to one name: characters other than
/// `"`, and other than `/` too where `in_folder` holds.
pub open spec fn run_len(s: Seq<char>, i: int, in_folder: bool) -> nat
    decreases s.len() - i,
{
    if 0 <= i < s.len() && s[i] != '"' && !(in_folder && s[i] == '/') {
        1 + run_len(s, i + 1, in_folder)
    } else {
        0
    }
}

/// `./` stands at `i`.
pub open spec fn dot_slash_at(s: Seq<char>, i: int) -> bool {
    0 <= i && i + 2 <= s.len() && s[i] == '.' && s[i + 1] == '/'
}

/// `live/` stands at `i`.
pub open spec fn live_at(s: Seq<char>, i: int) -> bool {
    0 <= i && i + 5 <= s.len() && s[i] == 'l' && s[i + 1] == 'i' && s[i + 2] == 'v' && s[i + 3]
        == 'e' && s[i + 4] == '/'
}

/// Where the part that is kept begins, if at `j` stands a folder name with
/// its `/`, or none, and then `live/` and a rest: the place just behind
/// `live/`. The folder name is tried first.
pub open spec fn body_from(s: Seq<char>, j: int) -> Option<int> {
    let folder_end = j + run_len(s, j, true);
    if folder_end > j && folder_end < s.len() && s[folder_end] == '/' && live_at(s, folder_end + 1)
        && run_len(s, folder_end + 6, false) >= 1 {
        Some(folder_end + 6)
    } else if live_at(s, j) && run_len(s, j + 5, false) >= 1 {
        Some(j + 5)
    } else {
        None
    }
}

/// Where the part that is kept begins, if a reference starts at `i`: the
/// place just behind its `live/`.
pub open spec fn kept_from(s: Seq<char>, i: int) -> Option<int> {
    if dot_slash_at(s, i) {
        body_from(s, i + 2)
    } else {
        body_from(s, i)
    }
}

/// Where the reference whose kept part begins at `g` ends.
pub open spec fn kept_to(s: Seq<char>, g: int) -> int {
    g + run_len(s, g, false)
}

/// The rewrite of `s` from `p` on.
pub open spec fn rewritten_from(s: Seq<char>, p: int) -> Seq<char>
    decreases s.len() - p,
    via rewritten_from_decreases
{
    if p < 0 || p >= s.len() {
        Seq::empty()
    } else {
        match kept_from(s, p) {
            Some(g) => segment_root() + s.subrange(g, kept_to(s, g)) + rewritten_from(
                s,
                kept_to(s, g),
            ),
            None => seq![s[p]] + rewritten_from(s, p + 1),
        }
    }
}

#[via_fn]
proof fn rewritten_from_decreases(s: Seq<char>, p: int) {
    if kept_from(s, p) is Some {
        lemma_reference_bounds(s, p);
    }
}

/// `s` with every reference cut down to `live/` and what follows it.
pub open spec fn rewritten(s: Seq<char>) -> Seq<char> {
    rewritten_from(s, 0)
}

/// The normal form of a manifest: separators unified, references rewritten.
pub open spec fn normalized(text: Seq<char>) -> Seq<char> {
    rewritten(unified(text))
}

/// Whether the rewrite of `s` from `p` on cuts anything: whether one of the
/// references that it takes starts with `./` or with a folder name.
pub open spec fn cuts_from(s: Seq<char>, p: int) -> bool
    decreases s.len() - p,
    via cuts_from_decreases
{
    if p < 0 || p >= s.len() {
        false
    } else {
        match kept_from(s, p) {
            Some(g) => g > p + 5 || cuts_from(s, kept_to(s, g)),
            None => cuts_from(s, p + 1),
        }
    }
}

#[via_fn]
proof fn cuts_from_decreases(s: Seq<char>, p: int) {
    if kept_from(s, p) is Some {
        lemma_reference_bounds(s, p);
    }
}

/// Whether the rewrite of `s` cuts anything.
pub open spec fn has_cut(s: Seq<char>) -> bool {
    cuts_from(s, 0)
}

/// A run ends within the text.
pub proof fn lemma_run_within(s: Seq<char>, i: int, in_folder: bool)
    requires
        0 <= i <= s.len(),
    ensures
        i + run_len(s, i, in_folder) <= s.len(),
    decreases s.len() - i,
{
    if i < s.len() && s[i] != '"' && !(in_folder && s[i] == '/') {
        lemma_run_within(s, i + 1, in_folder);
    }
}

/// A reference lies within the text; its kept part is not empty and follows
/// a `live/` that stands at the start of the reference or behind it.
pub proof fn lemma_reference_bounds(s: Seq<char>, i: int)
    requires
        kept_from(s, i) is Some,
    ensures
        0 <= i,
        i + 5 <= kept_from(s, i)->0,
        live_at(s, kept_from(s, i)->0 - 5),
        kept_from(s, i)->0 < kept_to(s, kept_from(s, i)->0) <= s.len(),
{
    let g = kept_from(s, i)->0;
    lemma_run_within(s, g, false);
    if dot_slash_at(s, i) {
        lemma_run_within(s, i + 2, true);
    } else {
        if i >= 0 {
            if i <= s.len() {
                lemma_run_within(s, i, true);
            }
        }
    }
}

/// The rewrite never lengthens a text. It shortens the text where it cuts
/// anything and leaves it as it is where it cuts nothing.
pub proof fn lemma_rewrite_exact(s: Seq<char>, p: int)
    requires
        0 <= p <= s.len(),
    ensures
        rewritten_from(s, p).len() <= s.len() - p,
        cuts_from(s, p) ==> rewritten_from(s, p).len() < s.len() - p,
        !cuts_from(s, p) ==> rewritten_from(s, p) == s.subrange(p, s.len() as int),
    decreases s.len() - p,
{
    if p < s.len() {
        match kept_from(s, p) {
            Some(g) => {
                lemma_reference_bounds(s, p);
                let e = kept_to(s, g);
                lemma_rewrite_exact(s, e);
                if !cuts_from(s, p) {
                    assert(g == p + 5);
                    assert(segment_root() =~= s.subrange(p, g));
                    assert(s.subrange(p, g) + s.subrange(g, e) + s.subrange(e, s.len() as int)
                        =~= s.subrange(p, s.len() as int));
                }
            },
            None => {
                lemma_rewrite_exact(s, p + 1);
                assert(seq![s[p]] + s.subrange(p + 1, s.len() as int) =~= s.subrange(
                    p,
                    s.len() as int,
                ));
            },
        }
    } else {
        assert(s.subrange(p, s.len() as int) =~= Seq::<char>::empty());
    }
}

/// Where the rewrite cuts something, a reference starts somewhere with `./`
/// or with a folder name.
pub proof fn lemma_cut_needs_prefix(s: Seq<char>, p: int)
    requires
        0 <= p <= s.len(),
        cuts_from(s, p),
    ensures
        exists|i: int|
            p <= i < s.len() && (#[trigger] kept_from(s, i)) is Some && kept_from(s, i)->0 > i + 5,
    decreases s.len() - p,
{
    match kept_from(s, p) {
        Some(g) => {
            lemma_reference_bounds(s, p);
            if g > p + 5 {
                assert(p <= p < s.len() && kept_from(s, p) is Some && kept_from(s, p)->0 > p + 5);
            } else {
                lemma_cut_needs_prefix(s, kept_to(s, g));
                let i = choose|i: int|
                    kept_to(s, g) <= i < s.len() && (#[trigger] kept_from(s, i)) is Some
                        && kept_from(s, i)->0 > i + 5;
                assert(p <= i < s.len() && kept_from(s, i) is Some && kept_from(s, i)->0 > i + 5);
            }
        },
        None => {
            lemma_cut_needs_prefix(s, p + 1);
            let i = choose|i: int|
                p + 1 <= i < s.len() && (#[trigger] kept_from(s, i)) is Some && kept_from(s, i)->0
                    > i + 5;
            assert(p <= i < s.len() && kept_from(s, i) is Some && kept_from(s, i)->0 > i + 5);
        },
    }
}

/// The rewrite brings no `\` into a text that holds none.
pub proof fn lemma_rewritten_keeps_unified(s: Seq<char>, p: int)
    requires
        0 <= p <= s.len(),
        !s.contains('\\'),
    ensures
        !rewritten_from(s, p).contains('\\'),
    decreases s.len() - p,
{
    let r = rewritten_from(s, p);
    if p < s.len() {
        match kept_from(s, p) {
            Some(g) => {
                lemma_reference_bounds(s, p);
                let e = kept_to(s, g);
                lemma_rewritten_keeps_unified(s, e);
                let rest = rewritten_from(s, e);
                assert forall|k: int| 0 <= k < r.len() implies r[k] != '\\' by {
                    if k < 5 {
                        assert(r[k] == segment_root()[k]);
                    } else if k < 5 + (e - g) {
                        assert(r[k] == s[g + (k - 5)]);
                        assert(s.contains(s[g + (k - 5)]));
                    } else {
                        assert(r[k] == rest[k - 5 - (e - g)]);
                        assert(rest.contains(rest[k - 5 - (e - g)]));
                    }
                }
            },
            None => {
                lemma_rewritten_keeps_unified(s, p + 1);
                let rest = rewritten_from(s, p + 1);
                assert forall|k: int| 0 <= k < r.len() implies r[k] != '\\' by {
                    if k == 0 {
                        assert(s.contains(s[p]));
                    } else {
                        assert(r[k] == rest[k - 1]);
                        assert(rest.contains(rest[k - 1]));
                    }
                }
            },
        }
    }
}

/// Unifying the separators leaves no `\`, and changes exactly the texts that
/// hold one.
pub proof fn lemma_unified(text: Seq<char>)
    ensures
        !unified(text).contains('\\'),
        unified(text) == text <==> !text.contains('\\'),
{
    let u = unified(text);
    if !text.contains('\\') {
        assert forall|i: int| 0 <= i < text.len() implies u[i] == text[i] by {
            assert(text.contains(text[i]));
        }
        assert(u =~= text);
    } else {
        let i = choose|i: int| 0 <= i < text.len() && text[i] == '\\';
        assert(u[i] == '/');
    }
}

/// A manifest is its own normal form exactly when it holds no `\` and the
/// rewrite cuts nothing from it.
pub proof fn lemma_normal_form(text: Seq<char>)
    ensures
        normalized(text) == text <==> !text.contains('\\') && !has_cut(text),
{
    let u = unified(text);
    lemma_unified(text);
    lemma_rewritten_keeps_unified(u, 0);
    lemma_rewrite_exact(u, 0);
    lemma_rewrite_exact(text, 0);
    assert(text.subrange(0, text.len() as int) =~= text);
}

/// A manifest in which every reference starts with its `live/` is left as
/// it is, provided that it holds no `\`.
pub proof fn lemma_plain_references_stay(text: Seq<char>)
    requires
        !text.contains('\\'),
        forall|i: int|
            0 <= i < text.len() && (#[trigger] kept_from(text, i)) is Some ==> kept_from(text, i)
                == Some(i + 5),
    ensures
        normalized(text) == text,
{
    if has_cut(text) {
        lemma_cut_needs_prefix(text, 0);
    }
    lemma_normal_form(text);
}

/// Normalizing twice gives what normalizing once gives, for every manifest
/// from whose normal form the rewrite cuts nothing.
///
/// There are normal forms from which it does cut: to cut a reference can
/// bring what stood before it together with what follows, as in
/// `./a/./live/x`, which becomes `./a/live/x`, and of two folders in front of
/// `live/` one pass cuts one. [`lemma_second_pass_changes`] shows that on
/// those manifests a second pass does change the text.
pub proof fn lemma_normalize_idempotent(text: Seq<char>)
    requires
        !has_cut(normalized(text)),
    ensures
        normalized(normalized(text)) == normalized(text),
{
    lemma_unified(text);
    lemma_rewritten_keeps_unified(unified(text), 0);
    lemma_normal_form(normalized(text));
}

/// Where the rewrite cuts something from the normal form of a manifest,
/// normalizing it once more gives a shorter text.
pub proof fn lemma_second_pass_changes(text: Seq<char>)
    requires
        has_cut(normalized(text)),
    ensures
        normalized(normalized(text)).len() < normalized(text).len(),
{
    let n = normalized(text);
    lemma_unified(text);
    lemma_rewritten_keeps_unified(unified(text), 0);
    lemma_unified(n);
    assert(unified(n) == n);
    lemma_rewrite_exact(n, 0);
}

/// Every reference that the rewrite of `s` takes from `p` on is quoted and
/// plain: it starts the text or follows a `"`, and what follows its `live/`
/// is not `live/` once more. The references that a segmenter writes are of
/// this kind: each is the whole value of an attribute.
pub open spec fn takes_quoted_from(s: Seq<char>, p: int) -> bool
    decreases s.len() - p,
    via takes_quoted_from_decreases
{
    if p < 0 || p >= s.len() {
        true
    } else {
        match kept_from(s, p) {
            Some(g) => (p == 0 || s[p - 1] == '"') && !live_at(s, g) && takes_quoted_from(
                s,
                kept_to(s, g),
            ),
            None => takes_quoted_from(s, p + 1),
        }
    }
}

#[via_fn]
proof fn takes_quoted_from_decreases(s: Seq<char>, p: int) {
    if kept_from(s, p) is Some {
        lemma_reference_bounds(s, p);
    }
}

/// Where the first reference at or behind `p` starts; the length of the text
/// where there is none.
pub open spec fn next_reference(s: Seq<char>, p: int) -> int
    decreases s.len() - p,
{
    if p < 0 || p >= s.len() {
        s.len() as int
    } else if kept_from(s, p) is Some {
        p
    } else {
        next_reference(s, p + 1)
    }
}

/// A run of characters other than `"` ends at a `"` or at the end of the
/// text.
proof fn lemma_run_stops(s: Seq<char>, i: int)
    requires
        0 <= i <= s.len(),
    ensures
        i + run_len(s, i, false) == s.len() || s[i + run_len(s, i, false)] == '"',
    decreases s.len() - i,
{
    if i < s.len() && s[i] != '"' {
        lemma_run_stops(s, i + 1);
    }
}

/// No character of a run is a `"`.
proof fn lemma_run_chars(s: Seq<char>, i: int, k: int)
    requires
        0 <= i,
        0 <= k < run_len(s, i, false),
    ensures
        i + k < s.len(),
        s[i + k] != '"',
    decreases k,
{
    if k > 0 {
        lemma_run_chars(s, i + 1, k - 1);
    }
}

/// Characters other than `"` up to a `"` or the end of the text are a run.
proof fn lemma_run_is(x: Seq<char>, i: int, m: int)
    requires
        0 <= i,
        0 <= m,
        i + m <= x.len(),
        forall|k: int| i <= k < i + m ==> x[k] != '"',
        i + m == x.len() || x[i + m] == '"',
    ensures
        run_len(x, i, false) == m,
    decreases m,
{
    if m > 0 {
        lemma_run_is(x, i + 1, m - 1);
    }
}

/// A run within the second of two joined texts is the run within that text.
proof fn lemma_run_in_suffix(a: Seq<char>, b: Seq<char>, j: int, in_folder: bool)
    requires
        0 <= j,
    ensures
        run_len(a + b, a.len() + j, in_folder) == run_len(b, j, in_folder),
    decreases b.len() - j,
{
    if j < b.len() {
        assert((a + b)[a.len() + j] == b[j]);
        lemma_run_in_suffix(a, b, j + 1, in_folder);
    }
}

/// What stands at a place of the second of two joined texts stands there in
/// that text alone.
proof fn lemma_body_in_suffix(a: Seq<char>, b: Seq<char>, j: int)
    requires
        0 <= j,
    ensures
        body_from(a + b, a.len() + j) == match body_from(b, j) {
            Some(g) => Some(a.len() + g),
            None => None,
        },
{
    let x = a + b;
    let n = a.len() as int;
    assert forall|k: int| 0 <= k < b.len() implies x[n + k] == b[k] by {}
    lemma_run_in_suffix(a, b, j, true);
    let folder_end: int = j + run_len(b, j, true);
    lemma_run_in_suffix(a, b, folder_end + 6, false);
    lemma_run_in_suffix(a, b, j + 5, false);
    if j <= b.len() {
        lemma_run_within(b, j, true);
    }
    assert(live_at(x, n + folder_end + 1) == live_at(b, folder_end + 1));
    assert(live_at(x, n + j) == live_at(b, j));
}

/// A reference within the second of two joined texts is a reference of that
/// text, and the other way round.
proof fn lemma_kept_in_suffix(a: Seq<char>, b: Seq<char>, j: int)
    requires
        0 <= j,
    ensures
        kept_from(a + b, a.len() + j) == match kept_from(b, j) {
            Some(g) => Some(a.len() + g),
            None => None,
        },
{
    let x = a + b;
    let n = a.len() as int;
    assert forall|k: int| 0 <= k < b.len() implies x[n + k] == b[k] by {}
    assert(dot_slash_at(x, n + j) == dot_slash_at(b, j));
    lemma_body_in_suffix(a, b, j);
    lemma_body_in_suffix(a, b, j + 2);
}

/// What the rewrite cuts from the second of two joined texts, read from a
/// place within it, it cuts from that text alone.
proof fn lemma_cuts_in_suffix(a: Seq<char>, b: Seq<char>, j: int)
    requires
        0 <= j <= b.len(),
    ensures
        cuts_from(a + b, a.len() + j) == cuts_from(b, j),
    decreases b.len() - j,
{
    if j < b.len() {
        lemma_kept_in_suffix(a, b, j);
        match kept_from(b, j) {
            Some(g) => {
                lemma_reference_bounds(b, j);
                lemma_run_in_suffix(a, b, g, false);
                lemma_cuts_in_suffix(a, b, kept_to(b, g));
            },
            None => {
                lemma_cuts_in_suffix(a, b, j + 1);
            },
        }
    }
}

/// Two texts that begin alike up to a `"` hold the same runs before it.
proof fn lemma_run_before_quote(x: Seq<char>, y: Seq<char>, m: int, i: int, in_folder: bool)
    requires
        1 <= m <= x.len(),
        m <= y.len(),
        forall|k: int| 0 <= k < m ==> x[k] == y[k],
        x[m - 1] == '"',
        0 <= i <= m - 1,
    ensures
        run_len(x, i, in_folder) == run_len(y, i, in_folder),
        i + run_len(x, i, in_folder) <= m - 1,
    decreases m - i,
{
    if i < m - 1 && x[i] != '"' && !(in_folder && x[i] == '/') {
        lemma_run_before_quote(x, y, m, i + 1, in_folder);
    }
}

/// Two texts that begin alike up to a `"` hold `live/` at the same places
/// before it.
proof fn lemma_live_before_quote(x: Seq<char>, y: Seq<char>, m: int, w: int)
    requires
        1 <= m <= x.len(),
        m <= y.len(),
        forall|k: int| 0 <= k < m ==> x[k] == y[k],
        x[m - 1] == '"',
        0 <= w <= m - 1,
    ensures
        live_at(x, w) == live_at(y, w),
        live_at(x, w) ==> w + 5 <= m - 1,
{
    if w + 5 > m - 1 {
        let d = m - 1 - w;
        assert(0 <= d < 5);
        assert(x[w + d] == '"' && y[w + d] == '"');
        assert(d == 0 || d == 1 || d == 2 || d == 3 || d == 4);
        assert(!live_at(x, w));
        assert(!live_at(y, w));
    }
}

/// Two texts that begin alike up to a `"` hold the same before it, read from
/// any place there.
proof fn lemma_body_before_quote(x: Seq<char>, y: Seq<char>, m: int, j: int)
    requires
        1 <= m <= x.len(),
        m <= y.len(),
        forall|k: int| 0 <= k < m ==> x[k] == y[k],
        x[m - 1] == '"',
        0 <= j <= m - 1,
    ensures
        body_from(x, j) == body_from(y, j),
{
    lemma_run_before_quote(x, y, m, j, true);
    let folder_end: int = j + run_len(x, j, true);
    assert(folder_end <= m - 1);
    lemma_live_before_quote(x, y, m, j);
    if live_at(x, j) {
        lemma_run_before_quote(x, y, m, j + 5, false);
    }
    if folder_end < m - 1 {
        lemma_live_before_quote(x, y, m, folder_end + 1);
        if live_at(x, folder_end + 1) {
            lemma_run_before_quote(x, y, m, folder_end + 6, false);
        }
    } else {
        assert(x[folder_end] == '"' && y[folder_end] == '"');
    }
}

/// Two texts that begin alike up to a `"` begin with the same reference, or
/// both with none.
proof fn lemma_kept_before_quote(x: Seq<char>, y: Seq<char>, m: int)
    requires
        1 <= m <= x.len(),
        m <= y.len(),
        forall|k: int| 0 <= k < m ==> x[k] == y[k],
        x[m - 1] == '"',
    ensures
        kept_from(x, 0) == kept_from(y, 0),
{
    lemma_body_before_quote(x, y, m, 0);
    if dot_slash_at(x, 0) {
        assert(m >= 3);
        lemma_body_before_quote(x, y, m, 2);
    } else if m >= 2 {
        assert(!dot_slash_at(y, 0));
    } else {
        assert(y[0] == '"');
    }
}

/// The text between a place and the next reference is copied as it is.
proof fn lemma_copied_up_to_next(s: Seq<char>, p: int)
    requires
        0 <= p <= s.len(),
    ensures
        p <= next_reference(s, p) <= s.len(),
        next_reference(s, p) < s.len() ==> kept_from(s, next_reference(s, p)) is Some,
        rewritten_from(s, p) == s.subrange(p, next_reference(s, p)) + rewritten_from(
            s,
            next_reference(s, p),
        ),
        takes_quoted_from(s, p) == takes_quoted_from(s, next_reference(s, p)),
    decreases s.len() - p,
{
    let n = next_reference(s, p);
    if p < s.len() && kept_from(s, p) is None {
        lemma_copied_up_to_next(s, p + 1);
        assert(seq![s[p]] + s.subrange(p + 1, n) =~= s.subrange(p, n));
        assert(rewritten_from(s, p) =~= s.subrange(p, n) + rewritten_from(s, n));
    } else {
        assert(s.subrange(p, n) + rewritten_from(s, n) =~= rewritten_from(s, n));
    }
}

/// What replaces a reference that is plain is itself a reference that
/// starts with its `live/` and ends where the replacement ends.
proof fn lemma_piece_is_plain(s: Seq<char>, p: int)
    requires
        0 <= p < s.len(),
        kept_from(s, p) is Some,
        !live_at(s, kept_from(s, p)->0),
    ensures
        kept_from(rewritten_from(s, p), 0) == Some(5int),
        kept_to(rewritten_from(s, p), 5) == 5 + (kept_to(s, kept_from(s, p)->0) - kept_from(
            s,
            p,
        )->0),
{
    let out = rewritten_from(s, p);
    let g = kept_from(s, p)->0;
    lemma_reference_bounds(s, p);
    let e = kept_to(s, g);
    let n = e - g;
    let head = segment_root() + s.subrange(g, e);
    let rest = rewritten_from(s, e);
    assert(out == head + rest);
    assert(head.len() == 5 + n);
    assert forall|k: int| 0 <= k < 5 implies out[k] == segment_root()[k] by {
        assert(out[k] == head[k]);
    }
    assert forall|k: int| 5 <= k < 5 + n implies out[k] == s[g + k - 5] && out[k] != '"' by {
        assert(out[k] == head[k]);
        lemma_run_chars(s, g, k - 5);
    }
    if e < s.len() {
        lemma_run_stops(s, g);
        assert(s[e] == '"');
        assert(kept_from(s, e) is None);
        assert(rest == seq![s[e]] + rewritten_from(s, e + 1));
        assert(out[5 + n] == rest[0]);
        assert(out[5 + n] == '"');
    } else {
        assert(rest.len() == 0);
        assert(out.len() == 5 + n);
    }
    lemma_run_is(out, 5, n);
    assert(run_len(out, 4, true) == 0);
    assert(run_len(out, 3, true) == 1);
    assert(run_len(out, 2, true) == 2);
    assert(run_len(out, 1, true) == 3);
    assert(run_len(out, 0, true) == 4);
    assert(live_at(out, 0));
    assert(!live_at(out, 5)) by {
        if n >= 5 {
            assert(out[5] == s[g] && out[6] == s[g + 1] && out[7] == s[g + 2] && out[8] == s[g + 3]
                && out[9] == s[g + 4]);
        } else {
            assert(n == 1 || n == 2 || n == 3 || n == 4);
            if e < s.len() {
                assert(out[5 + n] == '"');
            }
        }
    }
    assert(!dot_slash_at(out, 0));
    assert(body_from(out, 0) == Some(5int));
}

/// Where no reference starts at `p`, none starts the rewrite from `p` on
/// either, provided that the next reference follows a `"`.
proof fn lemma_none_at_start(s: Seq<char>, p: int)
    requires
        takes_quoted_from(s, p),
        0 <= p < s.len(),
        kept_from(s, p) is None,
    ensures
        kept_from(rewritten_from(s, p), 0) is None,
{
    let out = rewritten_from(s, p);
    let n = next_reference(s, p);
    lemma_copied_up_to_next(s, p);
    assert(n > p);
    let tail = s.subrange(p, s.len() as int);
    lemma_kept_in_suffix(s.subrange(0, p), tail, 0);
    assert(s.subrange(0, p) + tail =~= s);
    assert(kept_from(tail, 0) is None);
    if n == s.len() {
        assert(rewritten_from(s, n).len() == 0);
        assert(out =~= tail);
    } else {
        assert(kept_from(s, n) is Some);
        assert(takes_quoted_from(s, n));
        assert(s[n - 1] == '"');
        let m = n - p;
        assert forall|k: int| 0 <= k < m implies out[k] == tail[k] by {
            assert(out[k] == s.subrange(p, n)[k]);
        }
        lemma_kept_before_quote(out, tail, m);
    }
}

/// From the rewrite of a text whose references are quoted and plain the
/// rewrite cuts nothing.
proof fn lemma_quoted_has_no_cut(s: Seq<char>, p: int)
    requires
        takes_quoted_from(s, p),
        0 <= p <= s.len(),
    ensures
        !cuts_from(rewritten_from(s, p), 0),
    decreases s.len() - p,
{
    let out = rewritten_from(s, p);
    if p < s.len() {
        match kept_from(s, p) {
            Some(g) => {
                lemma_reference_bounds(s, p);
                let e = kept_to(s, g);
                let head = segment_root() + s.subrange(g, e);
                let rest = rewritten_from(s, e);
                assert(out == head + rest);
                assert(head.len() == 5 + (e - g));
                lemma_piece_is_plain(s, p);
                lemma_quoted_has_no_cut(s, e);
                lemma_cuts_in_suffix(head, rest, 0);
                assert(cuts_from(out, 0) == cuts_from(out, kept_to(out, 5)));
            },
            None => {
                let rest = rewritten_from(s, p + 1);
                assert(out == seq![s[p]] + rest);
                lemma_none_at_start(s, p);
                lemma_quoted_has_no_cut(s, p + 1);
                lemma_cuts_in_suffix(seq![s[p]], rest, 0);
                assert(cuts_from(out, 0) == cuts_from(out, 1));
            },
        }
    }
}

/// Normalizing twice gives what normalizing once gives, for every manifest
/// whose references, once its separators are unified, are quoted and plain.
pub proof fn lemma_normalize_idempotent_on_quoted(text: Seq<char>)
    requires
        takes_quoted_from(unified(text), 0),
    ensures
        !has_cut(normalized(text)),
        normalized(normalized(text)) == normalized(text),
{
    lemma_quoted_has_no_cut(unified(text), 0);
    lemma_normalize_idempotent(text);
}

/// Where the run that starts at `start` ends.
fn run_end(s: &Vec<char>, start: usize, in_folder: bool) -> (end: usize)
    requires
        start <= s.len(),
    ensures
        end == start + run_len(s@, start as int, in_folder),
        end <= s.len(),
{
    let mut i: usize = start;
    while i < s.len() && s[i] != '"' && !(in_folder && s[i] == '/')
        invariant
            start <= i <= s.len(),
            i + run_len(s@, i as int, in_folder) == start + run_len(s@, start as int, in_folder),
        decreases s.len() - i,
    {
        i += 1;
    }
    i
}

/// Whether `live/` stands at `i`.
fn is_live_at(s: &Vec<char>, i: usize) -> (found: bool)
    requires
        i <= s.len(),
    ensures
        found == live_at(s@, i as int),
{
    s.len() - i >= 5 && s[i] == 'l' && s[i + 1] == 'i' && s[i + 2] == 'v' && s[i + 3] == 'e' && s[i
        + 4] == '/'
}

/// Whether `live/` and at least one character of a rest stand at `i`: if so,
/// where that rest begins.
fn kept_after_live(s: &Vec<char>, i: usize) -> (kept: Option<usize>)
    requires
        i <= s.len(),
    ensures
        kept == if live_at(s@, i as int) && run_len(s@, i + 5, false) >= 1 {
            Some((i + 5) as usize)
        } else {
            None
        },
{
    if is_live_at(s, i) && s.len() - i > 5 && s[i + 5] != '"' {
        Some(i + 5)
    } else {
        None
    }
}

/// Whether a folder name or none, then `live/` and a rest stand at `j`: if
/// so, where the rest begins. `folder_end` is where the folder name that
/// starts at `j` ends.
fn find_body_from(s: &Vec<char>, j: usize, folder_end: usize) -> (kept: Option<usize>)
    requires
        j <= s.len(),
        folder_end == j + run_len(s@, j as int, true),
    ensures
        match kept {
            Some(g) => body_from(s@, j as int) == Some(g as int),
            None => body_from(s@, j as int) is None,
        },
{
    proof {
        lemma_run_within(s@, j as int, true);
    }
    if folder_end > j && folder_end < s.len() && s[folder_end] == '/' {
        let with_folder = kept_after_live(s, folder_end + 1);
        if with_folder.is_some() {
            return with_folder;
        }
    }
    kept_after_live(s, j)
}

/// The rewrite of `s`.
fn rewrite_chars(s: &Vec<char>) -> (out: Vec<char>)
    ensures
        out@ == rewritten(s@),
{
    let mut out: Vec<char> = Vec::new();
    let mut p: usize = 0;
    // Where the folder name that starts at `p` ends: kept from step to step,
    // so that a long name is read once.
    let mut stop: usize = run_end(s, 0, true);
    while p < s.len()
        invariant
            p <= s.len(),
            stop == p + run_len(s@, p as int, true),
            out@ + rewritten_from(s@, p as int) == rewritten(s@),
        decreases s.len() - p,
    {
        let kept = if s.len() - p >= 2 && s[p] == '.' && s[p + 1] == '/' {
            let inner: usize = run_end(s, p + 2, true);
            find_body_from(s, p + 2, inner)
        } else {
            find_body_from(s, p, stop)
        };
        match kept {
            Some(g) => {
                proof {
                    lemma_reference_bounds(s@, p as int);
                }
                let end: usize = run_end(s, g, false);
                let ghost before = out@;
                out.push('l');
                out.push('i');
                out.push('v');
                out.push('e');
                out.push('/');
                assert(out@ == before + segment_root());
                let mut j: usize = g;
                while j < end
                    invariant
                        g <= j <= end <= s.len(),
                        out@ == before + segment_root() + s@.subrange(g as int, j as int),
                    decreases end - j,
                {
                    out.push(s[j]);
                    assert(s@.subrange(g as int, j + 1) == s@.subrange(g as int, j as int).push(
                        s@[j as int],
                    ));
                    j += 1;
                }
                assert(before + (segment_root() + s@.subrange(g as int, end as int)
                    + rewritten_from(s@, end as int)) == out@ + rewritten_from(s@, end as int));
                p = end;
                stop = run_end(s, p, true);
            },
            None => {
                assert(out@.push(s@[p as int]) + rewritten_from(s@, p + 1) == out@ + (seq![
                    s@[p as int],
                ] + rewritten_from(s@, p + 1)));
                out.push(s[p]);
                if stop == p {
                    p += 1;
                    stop = run_end(s, p, true);
                } else {
                    p += 1;
                }
            },
        }
    }
    assert(out@ + Seq::<char>::empty() == out@);
    out
}

/// `s` with every `\` turned into `/`.
fn unify_chars(s: &Vec<char>) -> (out: Vec<char>)
    ensures
        out@ == unified(s@),
{
    let mut out: Vec<char> = Vec::new();
    let mut i: usize = 0;
    while i < s.len()
        invariant
            i <= s.len(),
            out@ == unified(s@).take(i as int),
        decreases s.len() - i,
    {
        let c: char = s[i];
        out.push(if c == '\\' { '/' } else { c });
        assert(unified(s@).take(i + 1) == unified(s@).take(i as int).push(unified(s@)[i as int]));
        i += 1;
    }
    assert(unified(s@).take(s.len() as int) == unified(s@));
    out
}

/// Turns every `\` of `text` into `/`.
pub fn unify_separators(text: &str) -> (out: String)
    ensures
        out@ == unified(text@),
{
    let s = to_chars(text);
    let u = unify_chars(&s);
    from_chars(&u)
}

/// Cuts every reference in `xml` down to `live/` and what follows it.
pub fn fix_xml_paths(xml: &str) -> (fixed: String)
    ensures
        fixed@ == rewritten(xml@),
{
    let s = to_chars(xml);
    let out = rewrite_chars(&s);
    from_chars(&out)
}

/// Normalizes the text of a manifest and says whether there is anything to
/// write back: `Some` with the normal form where it differs from `content`,
/// `None` where `content` is its own normal form and the file can stay
/// untouched. That is so exactly when `content` holds no `\` and no
/// reference from which there is anything to cut.
pub fn fix_mpd_paths(content: &str) -> (changed: Option<String>)
    ensures
        match changed {
            Some(fixed) => fixed@ == normalized(content@) && fixed@ != content@,
            None => normalized(content@) == content@,
        },
        changed is None <==> !content@.contains('\\') && !has_cut(content@),
{
    let s = to_chars(content);
    let u = unify_chars(&s);
    let out = rewrite_chars(&u);
    proof {
        lemma_normal_form(content@);
    }
    if same_chars(&out, &s) {
        None
    } else {
        Some(from_chars(&out))
    }
}

} // verus!
