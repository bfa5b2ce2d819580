//! Tests of the catalog: admission and numeric ids, the fatal-versus-skip
//! distinction, the model stages, renaming, the export, and the settings.

use aspargus::{
    AdmissionRequest, Aspargus, AspargusError, AspargusSettings, ExtractionOutcome, ProbeOutcome,
};

fn settings() -> AspargusSettings {
    AspargusSettings::with_defaults(
        String::from("/work"),
        String::from("/work/tmp"),
        String::from("/work/settings.json"),
    )
}

fn ok_request(path: &str) -> AdmissionRequest {
    AdmissionRequest {
        path: String::from(path),
        is_file: true,
        probe: ProbeOutcome::Output(String::from("120.5\n2023-05-01T10:00:00Z")),
    }
}

#[test]
fn admitted_video_carries_its_derived_fields() {
    let mut a = Aspargus::new(settings());
    a.add_video(
        String::from("video.mp4"),
        true,
        ProbeOutcome::Output(String::from("120.5\n2023-05-01T10:00:00Z")),
    )
    .unwrap();
    let v = &a.videos[0];
    // The id is the MD5 digest of the path in lowercase hexadecimal.
    assert_eq!(v.id, "9d66725ba2105f1833731ade5b7f334e");
    assert_eq!(v.path, "video.mp4");
    assert_eq!(v.gap, 40);
    assert_eq!(v.creation_date.year, 2023);
    assert_eq!(v.creation_date.month, 5);
    assert_eq!(v.creation_date.day, 1);
    assert_eq!(v.numeric_id, 1);
    assert!(!v.skip);
    assert_eq!(v.story, "");
    assert_eq!(v.resume.title, "");
}

#[test]
fn admission_failures_consume_no_id() {
    let mut a = Aspargus::new(settings());
    let requests = vec![
        ok_request("a.mp4"),
        AdmissionRequest {
            path: String::from("missing.mp4"),
            is_file: false,
            probe: ProbeOutcome::RunFailed,
        },
        AdmissionRequest {
            path: String::from("bad.mp4"),
            is_file: true,
            probe: ProbeOutcome::Output(String::from("garbage")),
        },
        ok_request("b.mp4"),
    ];
    a.add_videos(requests).unwrap();
    // Ids are strictly increasing from one with no reuse; attempts are all
    // counted.
    assert_eq!(a.videos.len(), 2);
    assert_eq!(a.videos[0].numeric_id, 1);
    assert_eq!(a.videos[1].numeric_id, 2);
    assert_eq!(a.videos[0].path, "a.mp4");
    assert_eq!(a.videos[1].path, "b.mp4");
    assert_eq!(a.videos_number, 4);
}

#[test]
fn add_video_reports_each_failure_kind() {
    let mut a = Aspargus::new(settings());
    let r = a.add_video(String::from("x.mp4"), false, ProbeOutcome::RunFailed);
    assert!(matches!(r, Err(AspargusError::ProcessingError(_))));
    let r = a.add_video(String::from("x.mp4"), true, ProbeOutcome::RunFailed);
    assert!(matches!(r, Err(AspargusError::ProcessingError(_))));
    let r = a.add_video(String::from("x.mp4"), true, ProbeOutcome::BinaryMissing);
    assert!(matches!(r, Err(AspargusError::GenericError(_))));
    let r = a.add_video(
        String::from("x.mp4"),
        true,
        ProbeOutcome::Output(String::from("no parseable value")),
    );
    assert!(matches!(r, Err(AspargusError::ProcessingError(_))));
    assert_eq!(a.videos.len(), 0);
}

#[test]
fn missing_probe_binary_aborts_remaining_admissions() {
    let mut a = Aspargus::new(settings());
    let requests = vec![
        ok_request("a.mp4"),
        AdmissionRequest {
            path: String::from("b.mp4"),
            is_file: true,
            probe: ProbeOutcome::BinaryMissing,
        },
        ok_request("c.mp4"),
    ];
    let r = a.add_videos(requests);
    assert!(matches!(r, Err(AspargusError::GenericError(_))));
    // The fatal attempt is counted; the request after it was never tried.
    assert_eq!(a.videos_number, 2);
    assert_eq!(a.videos.len(), 1);
    assert_eq!(a.videos[0].path, "a.mp4");
}

fn two_video_catalog() -> Aspargus {
    let mut a = Aspargus::new(settings());
    a.add_videos(vec![ok_request("a.mp4"), ok_request("b.mp4")]).unwrap();
    a
}

#[test]
fn missing_sampler_is_fatal_once_and_failures_skip_per_video() {
    let mut a = two_video_catalog();
    let r = a.extract_frames(vec![ExtractionOutcome::BinaryMissing, ExtractionOutcome::Failed]);
    // The batch call returns the missing-binary error exactly once.
    assert!(matches!(r, Err(AspargusError::ProcessingError(_))));
    // Video B is independently skipped; video A is not blocked by it.
    assert!(!a.videos[0].skip);
    assert!(a.videos[1].skip);
}

#[test]
fn extraction_outcomes_fill_thumbnails_or_skip() {
    let mut a = two_video_catalog();
    let r = a.extract_frames(vec![
        ExtractionOutcome::Produced(vec![
            String::from("/work/tmp/x_0001.png"),
            String::from("/work/tmp/x_0002.png"),
        ]),
        ExtractionOutcome::Produced(vec![]),
    ]);
    assert!(r.is_ok());
    assert_eq!(a.videos[0].thumbnails.len(), 2);
    assert!(!a.videos[0].skip);
    // A run that produced no thumbnails skips only that video.
    assert!(a.videos[1].skip);
    assert!(a.videos[1].thumbnails.is_empty());
}

#[test]
fn commands_carry_the_fixed_arguments() {
    let a = two_video_catalog();
    let probe = Aspargus::metadata_probe_command("a.mp4");
    assert_eq!(probe.program, "ffprobe");
    assert_eq!(
        probe.args,
        vec![
            "-v",
            "error",
            "-show_entries",
            "format=duration",
            "-show_entries",
            "stream_tags=creation_time",
            "-of",
            "default=noprint_wrappers=1:nokey=1",
            "a.mp4"
        ]
    );
    let c = a.frame_extraction_command(0);
    assert_eq!(c.program, "ffmpeg");
    assert_eq!(
        c.args,
        vec![
            "-i",
            "a.mp4",
            "-vf",
            "fps=1/40",
            "/work/tmp/2a1f28800d49717bbf88dc2c704f4390_%04d.png"
        ]
    );
    assert_eq!(
        a.thumbnails_glob_pattern(0),
        "/work/tmp/2a1f28800d49717bbf88dc2c704f4390_[0-9]*.png"
    );
}

#[test]
fn zero_gap_video_samples_once_per_second() {
    let mut a = Aspargus::new(settings());
    a.add_video(
        String::from("a.mp4"),
        true,
        ProbeOutcome::Output(String::from("2023-05-01T10:00:00Z")),
    )
    .unwrap();
    assert_eq!(a.videos[0].gap, 0);
    let c = a.frame_extraction_command(0);
    assert_eq!(c.args[3], "fps=1/1");
}

#[test]
fn vision_request_encodes_images_and_picks_the_prompt() {
    let mut a = two_video_catalog();
    let r = a.vision_request(vec![vec![b'a', b'b', b'c'], vec![b'a']]);
    assert_eq!(r.images_base64, vec!["YWJj", "YQ=="]);
    assert_eq!(r.model, "gemma3:latest");
    assert_eq!(r.temperature_tenths, 5);
    assert!(r.prompt.contains("json"));
    a.set_two_steps(true);
    let r = a.vision_request(vec![]);
    assert!(!r.prompt.contains("json"));
    assert!(r.prompt.starts_with("The following images are part of a video"));
}

#[test]
fn resume_request_needs_a_story() {
    let mut a = two_video_catalog();
    let r = a.resume_request(0);
    assert!(matches!(r, Err(AspargusError::ProcessingError(_))));
    a.run_computer_vision_model(0, Some(String::from("a tale")));
    assert_eq!(a.videos[0].story, "a tale");
    let req = a.resume_request(0).unwrap();
    assert!(req.prompt.ends_with("The story is:a tale"));
    assert_eq!(req.model, "gemma3:1b");
    assert!(req.images_base64.is_empty());
}

#[test]
fn model_stages_respect_the_skip_flag() {
    let mut a = two_video_catalog();
    a.extract_frames(vec![
        ExtractionOutcome::Failed,
        ExtractionOutcome::Produced(vec![String::from("t.png")]),
    ])
    .unwrap();
    a.run_computer_vision_model(0, Some(String::from("ignored")));
    assert_eq!(a.videos[0].story, "");
    a.run_resume_model(
        1,
        Some(String::from("{\"title\":\"t\",\"description\":\"d\",\"keywords\":[\"k\"]}")),
    );
    assert_eq!(a.videos[1].resume.title, "t");
    // An unparseable reply changes nothing.
    a.run_resume_model(1, Some(String::from("not json")));
    assert_eq!(a.videos[1].resume.title, "t");
}

#[test]
fn apply_resume_respects_the_skip_flag() {
    let mut a = two_video_catalog();
    a.extract_frames(vec![
        ExtractionOutcome::Produced(vec![String::from("t.png")]),
        ExtractionOutcome::Failed,
    ])
    .unwrap();
    let resume = aspargus::Resume {
        title: String::from("t"),
        description: String::from("d"),
        keywords: vec![String::from("k")],
    };
    a.apply_resume(0, resume);
    assert_eq!(a.videos[0].resume.title, "t");
    let resume = aspargus::Resume {
        title: String::from("ignored"),
        description: String::new(),
        keywords: vec![],
    };
    a.apply_resume(1, resume);
    assert_eq!(a.videos[1].resume.title, "");
}

#[test]
fn single_step_reads_the_embedded_json() {
    let mut a = two_video_catalog();
    a.run_only_computer_vision_model(
        0,
        Some(String::from(
            "chatter {\"title\":\"t\",\"description\":\"d\",\"keywords\":[\"k1\",\"k2\"]} more",
        )),
    );
    assert_eq!(a.videos[0].resume.title, "t");
    assert_eq!(a.videos[0].resume.description, "d");
    assert_eq!(a.videos[0].resume.keywords, vec!["k1", "k2"]);
    a.run_only_computer_vision_model(1, Some(String::from("no json here")));
    assert_eq!(a.videos[1].resume.title, "");
}

#[test]
fn rename_targets_and_outcomes() {
    let mut a = two_video_catalog();
    a.extract_frames(vec![
        ExtractionOutcome::Produced(vec![String::from("t.png")]),
        ExtractionOutcome::Failed,
    ])
    .unwrap();
    a.run_only_computer_vision_model(
        0,
        Some(String::from("{\"title\":\"Sunset\",\"description\":\"d\",\"keywords\":[\"sea\"]}")),
    );
    let targets = a.rename_targets("%Y %T");
    assert_eq!(targets.len(), 2);
    assert_eq!(targets[0].as_deref(), Some("2023 Sunset.mp4"));
    // The skipped video gets no rename target.
    assert!(targets[1].is_none());
    a.rename_videos(vec![Some(String::from("2023 Sunset.mp4")), None]);
    assert_eq!(a.videos[0].path, "2023 Sunset.mp4");
    assert_eq!(a.videos[1].path, "b.mp4");
}

#[test]
fn export_round_trips_through_a_json_parser() {
    let mut a = two_video_catalog();
    a.extract_frames(vec![
        ExtractionOutcome::Produced(vec![String::from("t.png")]),
        ExtractionOutcome::Failed,
    ])
    .unwrap();
    a.run_only_computer_vision_model(
        0,
        Some(String::from(
            "{\"title\":\"A \\\"quoted\\\" title\\nwith\\tcontrols\\\\\",\"description\":\"d\",\"keywords\":[\"k1\",\"k2\"]}",
        )),
    );
    let text = a.export_to_json();
    let value: serde_json::Value = serde_json::from_str(&text).unwrap();
    let entries = value.as_array().unwrap();
    assert_eq!(entries.len(), 2);
    assert_eq!(entries[0].get("path").unwrap().as_str().unwrap(), "a.mp4");
    let resume = entries[0].get("resume").unwrap();
    // The escaped title survives the round trip exactly.
    assert_eq!(
        resume.get("title").unwrap().as_str().unwrap(),
        "A \"quoted\" title\nwith\tcontrols\\"
    );
    assert_eq!(resume.get("description").unwrap().as_str().unwrap(), "d");
    let ks = resume.get("keywords").unwrap().as_array().unwrap();
    assert_eq!(ks.len(), 2);
    assert_eq!(ks[0].as_str().unwrap(), "k1");
    // The skipped video appears with empty resume fields.
    let skipped = entries[1].get("resume").unwrap();
    assert_eq!(skipped.get("title").unwrap().as_str().unwrap(), "");
    assert_eq!(skipped.get("description").unwrap().as_str().unwrap(), "");
    assert!(skipped.get("keywords").unwrap().as_array().unwrap().is_empty());
    // Internal fields are omitted.
    assert!(entries[0].get("id").is_none());
    assert!(entries[0].get("story").is_none());
    assert!(entries[0].get("thumbnails").is_none());
    assert!(entries[0].get("gap").is_none());
}

#[test]
fn export_escapes_rare_control_characters() {
    let mut a = two_video_catalog();
    let resume = aspargus::Resume {
        title: String::from("a\u{1}b"),
        description: String::new(),
        keywords: vec![],
    };
    a.apply_resume(0, resume);
    let text = a.export_to_json();
    let value: serde_json::Value = serde_json::from_str(&text).unwrap();
    let title = value.as_array().unwrap()[0]
        .get("resume")
        .unwrap()
        .get("title")
        .unwrap()
        .as_str()
        .unwrap()
        .to_string();
    assert_eq!(title, "a\u{1}b");
}

#[test]
fn empty_catalog_exports_an_empty_array() {
    let a = Aspargus::new(settings());
    let text = a.export_to_json();
    assert_eq!(text, "[]");
    let value: serde_json::Value = serde_json::from_str(&text).unwrap();
    assert!(value.as_array().unwrap().is_empty());
}

#[test]
fn settings_setters_report_changes() {
    let mut a = Aspargus::new(settings());
    assert!(a.set_computer_vision_model(String::from("other:latest")));
    assert!(!a.set_computer_vision_model(String::from("other:latest")));
    assert_eq!(a.get_computer_vision_model(), "other:latest");
    assert!(a.set_text_model(String::from("t")));
    assert_eq!(a.get_text_model(), "t");
    assert!(a.set_computer_vision_server(String::from("http://cv")));
    assert!(a.set_text_server(String::from("http://text")));
    assert!(a.set_computer_vision_server_port(1234));
    assert!(!a.set_computer_vision_server_port(1234));
    assert!(a.set_text_server_port(4321));
    assert!(!a.is_two_steps());
    assert!(a.set_two_steps(true));
    assert!(a.is_two_steps());
    assert!(!a.set_two_steps(true));
}

#[test]
fn default_settings_values() {
    assert_eq!(aspargus::get_default_cv_model(), "gemma3:latest");
    assert_eq!(aspargus::get_default_text_model(), "gemma3:1b");
    assert_eq!(aspargus::get_default_server_url(), "http://localhost");
    assert_eq!(aspargus::get_default_server_port(), 11434);
    assert!(!aspargus::get_default_two_steps());
}

#[test]
fn error_messages_name_their_category() {
    assert_eq!(AspargusError::Io(String::from("x")).message(), "IO error: x");
    assert_eq!(AspargusError::ParseError(String::from("x")).message(), "Parse error: x");
    assert_eq!(AspargusError::GenericError(String::from("x")).message(), "Generic error: x");
    assert_eq!(
        AspargusError::ProcessingError(String::from("x")).message(),
        "Processing error: x"
    );
}
