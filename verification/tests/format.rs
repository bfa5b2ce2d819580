//! Tests of the text-level pieces: durations, probe output, path handling,
//! rename substitution, JSON extraction, and the export format.

use aspargus::metadata::{Duration, Timestamp};
use aspargus::video::{Resume, Video};
use aspargus::{
    calculate_new_size, create_new_file_name, create_new_path, extract_json, get_capture_gap,
    get_file_name, parse_duration, parse_probe_output, resume_from_json, sampling_divisor,
    ProbeMetadata,
};

fn chars(s: &str) -> Vec<char> {
    s.chars().collect()
}

#[test]
fn capture_gap_is_floor_of_third() {
    let d = parse_duration(&chars("120.5")).unwrap();
    assert_eq!(get_capture_gap(&d), 40);
    let d = parse_duration(&chars("119.999")).unwrap();
    assert_eq!(get_capture_gap(&d), 39);
    let d = Duration::from_secs(2);
    assert_eq!(get_capture_gap(&d), 0);
    let d = Duration::from_secs(0);
    assert_eq!(get_capture_gap(&d), 0);
}

#[test]
fn zero_gap_still_makes_a_valid_sampling_divisor() {
    assert_eq!(sampling_divisor(0), 1);
    assert_eq!(sampling_divisor(1), 1);
    assert_eq!(sampling_divisor(40), 40);
}

#[test]
fn duration_grammar() {
    let d = parse_duration(&chars("120.5")).unwrap();
    assert_eq!(d.secs, 120);
    assert_eq!(d.frac, vec![5u8]);
    let d = parse_duration(&chars("00120.500")).unwrap();
    assert_eq!(d.secs, 120);
    assert_eq!(d.frac, vec![5u8]);
    let d = parse_duration(&chars("7")).unwrap();
    assert_eq!(d.secs, 7);
    assert_eq!(d.frac, Vec::<u8>::new());
    assert!(parse_duration(&chars("")).is_none());
    assert!(parse_duration(&chars("1.")).is_none());
    assert!(parse_duration(&chars(".5")).is_none());
    assert!(parse_duration(&chars("-1")).is_none());
    assert!(parse_duration(&chars("1e3")).is_none());
    assert!(parse_duration(&chars("2023-05-01T10:00:00Z")).is_none());
    // One digit past the u64 range is rejected.
    assert!(parse_duration(&chars("99999999999999999999")).is_none());
}

#[test]
fn probe_lines_last_parse_of_each_kind_wins() {
    let m: ProbeMetadata = parse_probe_output("120.5\n2023-05-01T10:00:00Z\n120.5");
    let d = m.duration.unwrap();
    assert_eq!(d.secs, 120);
    assert_eq!(d.frac, vec![5u8]);
    let t = m.creation.unwrap();
    assert_eq!(
        t,
        Timestamp { year: 2023, month: 5, day: 1, hour: 10, minute: 0, second: 0 }
    );
}

#[test]
fn probe_lines_deduplicate_and_default() {
    // The duplicate duration is removed; a later different duration wins.
    let m = parse_probe_output("10.0\n10.0\n20.0\n");
    assert_eq!(m.duration.unwrap().secs, 20);
    assert!(m.creation.is_none());
    let m = parse_probe_output("");
    assert!(m.duration.is_none());
    assert!(m.creation.is_none());
    let m = parse_probe_output("not a value\nN/A");
    assert!(m.duration.is_none());
    assert!(m.creation.is_none());
}

#[test]
fn probe_timestamp_is_normalised_to_utc() {
    let m = parse_probe_output("2023-05-01T12:30:00+02:30");
    let t = m.creation.unwrap();
    assert_eq!(
        t,
        Timestamp { year: 2023, month: 5, day: 1, hour: 10, minute: 0, second: 0 }
    );
}

#[test]
fn create_new_path_keeps_parent_and_extension() {
    assert_eq!(create_new_path("/a/b/clip.MP4", "newname"), "/a/b/newname.MP4");
    assert_eq!(create_new_path("clip.mp4", "x"), "x.mp4");
    assert_eq!(create_new_path("/clip.tar.gz", "y"), "/y.gz");
    // A file without an extension gets the bare dot, as the rename always
    // re-appends the (here empty) extension.
    assert_eq!(create_new_path("/a/b/clip", "n"), "/a/b/n.");
}

#[test]
fn get_file_name_returns_the_stem() {
    assert_eq!(get_file_name("/a/b/clip.MP4"), "clip");
    assert_eq!(get_file_name("clip.mp4"), "clip");
    assert_eq!(get_file_name("/a/b/.gitignore"), ".gitignore");
    assert_eq!(get_file_name("/a/b/archive.tar.gz"), "archive.tar");
}

fn test_video(title: &str, keywords: Vec<&str>) -> Video {
    let metadata = ProbeMetadata {
        duration: None,
        creation: Some(Timestamp { year: 2023, month: 5, day: 1, hour: 10, minute: 0, second: 0 }),
    };
    let mut v = Video::new(String::from("/a/b/clip.MP4"), 1, &metadata);
    v.resume = Resume {
        title: String::from(title),
        description: String::new(),
        keywords: keywords.into_iter().map(String::from).collect(),
    };
    v
}

#[test]
fn rename_tokens_are_substituted_in_one_pass() {
    let v = test_video("Sunset", vec!["beach", "sea"]);
    assert_eq!(create_new_file_name(&v, "%Y-%M-%D %T (%K) [%J] %F"),
        "2023-05-01 Sunset (beach-sea) [beach, sea] clip");
}

#[test]
fn rename_replacement_text_is_not_rescanned() {
    // A token spelled inside the title is emitted verbatim, whatever order
    // the tokens are handled in.
    let v = test_video("100% K done", vec!["a", "b"]);
    assert_eq!(create_new_file_name(&v, "%T_%K"), "100% K done_a-b");
    let v = test_video("has %K inside", vec!["x"]);
    assert_eq!(create_new_file_name(&v, "%T_%K"), "has %K inside_x");
}

#[test]
fn rename_leaves_unknown_tokens_alone() {
    let v = test_video("t", vec![]);
    assert_eq!(create_new_file_name(&v, "a%Xb%"), "a%Xb%");
    assert_eq!(create_new_file_name(&v, "plain"), "plain");
    // Keywords joined over an empty list are empty.
    assert_eq!(create_new_file_name(&v, "%K|%J"), "|");
}

#[test]
fn extract_json_returns_first_outermost_balanced_braces() {
    let input = "noise {\"title\":\"a\",\"description\":\"b\",\"keywords\":[\"c\"]} trailing";
    assert_eq!(
        extract_json(input).unwrap(),
        "{\"title\":\"a\",\"description\":\"b\",\"keywords\":[\"c\"]}"
    );
    assert_eq!(extract_json("a {b {c} d} e {f}").unwrap(), "{b {c} d}");
    assert!(extract_json("no braces at all").is_none());
    assert!(extract_json("open { but { never closed").is_none());
    assert_eq!(extract_json("{}").unwrap(), "{}");
}

#[test]
fn resume_json_reads_the_three_fields() {
    let r = resume_from_json("{\"title\":\"a\",\"description\":\"b\",\"keywords\":[\"c\",\"d\"]}")
        .unwrap();
    assert_eq!(r.title, "a");
    assert_eq!(r.description, "b");
    assert_eq!(r.keywords, vec!["c", "d"]);
    assert!(resume_from_json("not json").is_none());
    assert!(resume_from_json("{\"title\":\"a\",\"description\":\"b\"}").is_none());
    assert!(resume_from_json("{\"title\":1,\"description\":\"b\",\"keywords\":[]}").is_none());
    assert!(
        resume_from_json("{\"title\":\"a\",\"description\":\"b\",\"keywords\":[\"c\",2]}")
            .is_none()
    );
}

#[test]
fn probe_lines_accept_carriage_returns() {
    let m = parse_probe_output("  120.5\r\n2023-05-01T10:00:00Z\r\n");
    assert_eq!(m.duration.unwrap().secs, 120);
    assert_eq!(m.creation.unwrap().year, 2023);
}

#[test]
fn year_token_is_zero_padded_to_four_digits() {
    let metadata = ProbeMetadata {
        duration: None,
        creation: Some(Timestamp { year: 99, month: 12, day: 31, hour: 0, minute: 0, second: 0 }),
    };
    let v = Video::new(String::from("clip.mp4"), 1, &metadata);
    assert_eq!(create_new_file_name(&v, "%Y-%M-%D"), "0099-12-31");
}

#[test]
fn new_size_fits_the_bounding_box() {
    assert_eq!(calculate_new_size(1920, 1080, 672, 672), (672, 378));
    assert_eq!(calculate_new_size(1080, 1920, 672, 672), (378, 672));
    assert_eq!(calculate_new_size(500, 500, 672, 672), (672, 672));
    assert_eq!(calculate_new_size(10, 1, 672, 672), (672, 67));
}
