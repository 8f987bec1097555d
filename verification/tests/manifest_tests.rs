use dash_pipeline::manifest::{fix_mpd_paths, fix_xml_paths, unify_separators};

fn reference_rewrite(xml: &str) -> String {
    let re = regex::Regex::new(r#"(\./)?([^/"]+/)?live/([^"]+)"#).unwrap();
    re.replace_all(xml, |caps: &regex::Captures| format!("live/{}", &caps[3])).to_string()
}

fn reference_normalize(content: &str) -> String {
    reference_rewrite(&content.replace("\\", "/"))
}

fn normalize(content: &str) -> String {
    match fix_mpd_paths(content) {
        Some(fixed) => fixed,
        None => content.to_string(),
    }
}

const MANIFEST: &str = r#"<?xml version="1.0" encoding="utf-8"?>
<MPD type="static">
  <Period id="0" start="PT0.0S">
    <AdaptationSet id="0" contentType="video">
      <Representation id="0" mimeType="video/mp4" codecs="av01.0.08M.08">
        <SegmentTemplate timescale="15360" initialization="./clip/live/init_$RepresentationID$.m4s" media="./clip/live/chunk_$RepresentationID$_$Number$.m4s" startNumber="1">
        </SegmentTemplate>
      </Representation>
    </AdaptationSet>
  </Period>
</MPD>
"#;

#[test]
fn reference_with_folder_is_cut_to_segment_root() {
    assert_eq!(fix_xml_paths("./video/live/init_0.m4s"), "live/init_0.m4s");
}

#[test]
fn reference_without_dot_slash_is_cut_to_segment_root() {
    assert_eq!(
        fix_xml_paths(r#"<S media="clip/live/chunk_0_1.m4s"/>"#),
        r#"<S media="live/chunk_0_1.m4s"/>"#
    );
    assert_eq!(
        fix_mpd_paths(r#"<S media="clip/live/chunk_0_1.m4s"/>"#),
        Some(r#"<S media="live/chunk_0_1.m4s"/>"#.to_string())
    );
}

#[test]
fn reference_that_starts_with_the_segment_root_is_left() {
    assert_eq!(fix_xml_paths(r#"<S media="live/chunk_0_1.m4s"/>"#), r#"<S media="live/chunk_0_1.m4s"/>"#);
    assert_eq!(fix_mpd_paths(r#"<S media="live/chunk_0_1.m4s"/>"#), None);
    assert_eq!(fix_xml_paths("live/a/live/b"), "live/a/live/b");
}

#[test]
fn one_folder_is_cut_and_no_more() {
    assert_eq!(fix_xml_paths(r#""a/b/live/x""#), r#""a/live/x""#);
    assert_eq!(fix_xml_paths(r#""./a/b/live/x""#), r#""./a/live/x""#);
    assert_eq!(fix_xml_paths(r#""/abs/clip/live/x""#), r#""/abs/live/x""#);
}

#[test]
fn reference_without_folder_is_cut_to_segment_root() {
    assert_eq!(fix_xml_paths("./live/chunk_1.m4s"), "live/chunk_1.m4s");
}

#[test]
fn reference_ends_at_the_quote() {
    assert_eq!(
        fix_xml_paths(r#"a="./clip/live/x.m4s" b="./clip/live/y.m4s""#),
        r#"a="live/x.m4s" b="live/y.m4s""#
    );
}

#[test]
fn reference_without_a_quote_runs_to_the_end() {
    assert_eq!(fix_xml_paths("./a/live/x ./b/live/y"), "live/x ./b/live/y");
}

#[test]
fn text_without_reference_is_kept() {
    let text = r#"<MPD a="live/init.m4s" b="/live/x" c="./a/b/liv/x" d="./live/" e="alive">"#;
    assert_eq!(fix_xml_paths(text), text);
    assert_eq!(fix_xml_paths(""), "");
}

#[test]
fn folder_is_preferred_to_its_absence() {
    assert_eq!(fix_xml_paths("./live/live/x"), "live/x");
    assert_eq!(fix_xml_paths(r#"./live/live/""#), r#"live/live/""#);
    assert_eq!(fix_xml_paths("././live/x"), "live/x");
}

#[test]
fn separators_are_unified() {
    assert_eq!(unify_separators(r"a\b\\c/d"), "a/b//c/d");
    assert_eq!(unify_separators("none"), "none");
}

#[test]
fn manifest_from_the_segmenter_is_normalized() {
    let fixed = fix_mpd_paths(MANIFEST).expect("the manifest holds two references");
    assert!(fixed.contains(r#"initialization="live/init_$RepresentationID$.m4s""#));
    assert!(fixed.contains(r#"media="live/chunk_$RepresentationID$_$Number$.m4s""#));
    assert!(!fixed.contains("./clip"));
    assert_eq!(fixed, reference_normalize(MANIFEST));
}

#[test]
fn windows_separators_are_rewritten_too() {
    let fixed = fix_mpd_paths(r#"media=".\clip\live\chunk_1.m4s""#);
    assert_eq!(fixed, Some(r#"media="live/chunk_1.m4s""#.to_string()));
}

#[test]
fn normalized_manifest_is_left_untouched() {
    let once = fix_mpd_paths(MANIFEST).unwrap();
    assert_eq!(fix_mpd_paths(&once), None);
    assert_eq!(fix_mpd_paths("no reference here"), None);
    assert_eq!(fix_mpd_paths(""), None);
}

#[test]
fn only_separators_changed_is_written_back() {
    assert_eq!(fix_mpd_paths(r"a\b"), Some("a/b".to_string()));
}

#[test]
fn normalizing_twice_equals_once_on_manifests() {
    for text in [MANIFEST, "", "plain", r#"x="./a/live/b""#, r#".\a\live\b"#, "./live/x\n\"./live/y\""] {
        let once = normalize(text);
        assert_eq!(normalize(&once), once, "on {:?}", text);
    }
}

#[test]
fn reference_may_start_within_a_longer_path() {
    assert_eq!(fix_xml_paths("../live/x"), "live/x");
    assert_eq!(fix_xml_paths("x./clip/live/y"), "xlive/y");
    assert_eq!(fix_xml_paths("./live/x\n./live/y"), "live/x\n./live/y");
}

#[test]
fn second_pass_changes_where_a_reference_is_left() {
    let once = normalize("./a/./live/x");
    assert_eq!(once, "./a/live/x");
    assert_eq!(normalize(&once), "live/x");
    assert_eq!(reference_normalize("./a/./live/x"), "./a/live/x");
    assert_eq!(reference_normalize(&once), "live/x");
    let once = normalize("a/b/live/x");
    assert_eq!(once, "a/live/x");
    assert_eq!(normalize(&once), "live/x");
}

#[test]
fn rewrite_agrees_with_the_pattern_on_chosen_texts() {
    let texts = [
        "",
        ".",
        "./",
        "./live/",
        "./live/x",
        "./live/\"",
        "./x/live/y",
        "./x/live/",
        "./x/live/\"y",
        "./x/y/live/z",
        "././live/x",
        "./a/./live/x",
        "./live/live/",
        "./live/live/x",
        "./live/live/\"",
        "./live/live/live/x",
        "../live/x",
        ".//live/x",
        "./\"/live/x",
        "./a\"/live/x",
        "./a/live/x\"./b/live/y\"",
        "./a/live/x ./b/live/y",
        "./a/live/x\n./b/live/y\n",
        "./видео/live/сегмент.m4s",
        "\"./日本語/live/🎬\" ./live/é",
        "x./a/live/b",
        "./a/LIVE/b",
        "./a/live",
        "./a/liv/e/b",
        "././/live/x",
        "./a/live/b/live/c",
        "./a/live/./b/live/c",
        "./a/live/\"./b/live/c",
        "clip/live/x",
        "a/b/live/x",
        "/a/live/x",
        "live/x",
        "live/",
        "alive/x",
        "live/live/x",
        "live/live/",
        "a/live/live/x",
        "<S media=\"clip/live/chunk_0_1.m4s\"/>",
        "<BaseURL>clip/live/</BaseURL>",
        "ab./live/x",
        "././/live/x",
        "a\"b/live/c",
        "./\"a/live/b",
    ];
    for text in texts {
        assert_eq!(fix_xml_paths(text), reference_rewrite(text), "on {:?}", text);
        assert_eq!(normalize(text), reference_normalize(text), "on {:?}", text);
    }
}

#[test]
fn rewrite_agrees_with_the_pattern_on_generated_texts() {
    let alphabet = ['.', '/', 'l', 'i', 'v', 'e', '"', 'a', '\\', '\n', 'é'];
    let mut state: u64 = 0x2545_f491_4f6c_dd1d;
    let mut checked = 0;
    for round in 0..6000 {
        let len = round % 24;
        let mut text = String::new();
        for _ in 0..len {
            state = state.wrapping_mul(6364136223846793005).wrapping_add(1442695040888963407);
            let pick = ((state >> 33) % 16) as usize;
            // Weighted towards the characters of the pattern.
            match pick {
                0..=10 => text.push(alphabet[pick]),
                11 => text.push_str("./"),
                12 | 13 => text.push_str("live/"),
                14 => text.push_str("./a/live/"),
                _ => text.push_str("/live/"),
            }
        }
        assert_eq!(fix_xml_paths(&text), reference_rewrite(&text), "on {:?}", text);
        assert_eq!(normalize(&text), reference_normalize(&text), "on {:?}", text);
        checked += 1;
    }
    assert_eq!(checked, 6000);
}

#[test]
fn fixed_point_exactly_without_reference_and_backslash() {
    for text in ["plain", "./a/live/x", r"a\b", "./live/", "live/x", r#"="./x/live/y""#, "a/live/x", r#"="live/a/live/b""#] {
        let unchanged = fix_mpd_paths(text).is_none();
        assert_eq!(unchanged, !text.contains('\\') && reference_rewrite(text) == text, "on {:?}", text);
    }
}

#[test]
fn quoted_references_leave_nothing_for_a_second_pass() {
    let texts = [
        r#"a="./clip/live/init.m4s""#,
        r#"./live/x" b=".\clip\live\y" c="./z/live/w"#,
        "./folder/live/rest of the text without a quote",
        r#"<a href="./x/live/a b c"/><b>./not/a/reference</b>"#,
    ];
    for text in texts {
        let once = normalize(text);
        assert_ne!(once, text);
        assert_eq!(fix_mpd_paths(&once), None, "on {:?}", text);
        assert_eq!(reference_normalize(&once), once, "on {:?}", text);
    }
}
