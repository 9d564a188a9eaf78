use media_extract::schedule::{is_sorted_by_earliest, plan_passes, process_outcome};
use media_extract::{Extraction, ExtractionSpec, Id3Metadata, MediaError, Period, StreamId};

fn image_at(ms: u64, path: &str) -> Extraction {
    Extraction { path: path.to_string(), kind: ExtractionSpec::Image { time_ms: ms } }
}

fn audio_span(begin_ms: u64, end_ms: u64, path: &str) -> Extraction {
    Extraction {
        path: path.to_string(),
        kind: ExtractionSpec::Audio {
            stream: None,
            period: Period::from_ms(begin_ms, end_ms).unwrap(),
            metadata: Id3Metadata::default(),
        },
    }
}

#[test]
fn images_run_alone_and_audio_shares_a_pass() {
    let source = "clip.mkv".to_string();
    let extractions = vec![
        image_at(0, "a.jpg"),
        audio_span(1000, 2000, "b.mp3"),
        audio_span(3000, 4000, "c.mp3"),
        image_at(5000, "d.jpg"),
    ];
    let passes = plan_passes(&source, &extractions);
    assert_eq!(passes.len(), 3);
    // The two image passes come in encounter order, one item each.
    assert_eq!(passes[0].progress_units, 1);
    assert_eq!(passes[0].time_base_ms, 0);
    assert_eq!(passes[1].progress_units, 1);
    assert_eq!(passes[1].time_base_ms, 5000);
    // Both audio requests share one batch pass based at the earliest.
    assert_eq!(passes[2].progress_units, 2);
    assert_eq!(passes[2].time_base_ms, 1000);
}

#[test]
fn forty_five_batchables_make_three_chunks() {
    let source = "clip.mkv".to_string();
    let mut extractions = Vec::new();
    for i in 0..45u64 {
        extractions.push(audio_span(i * 1000, i * 1000 + 500, &format!("out{}.mp3", i)));
    }
    let passes = plan_passes(&source, &extractions);
    assert_eq!(passes.len(), 3);
    assert_eq!(passes[0].progress_units, 20);
    assert_eq!(passes[1].progress_units, 20);
    assert_eq!(passes[2].progress_units, 5);
    // Chunks keep the original order: each is based at its first element.
    assert_eq!(passes[0].time_base_ms, 0);
    assert_eq!(passes[1].time_base_ms, 20000);
    assert_eq!(passes[2].time_base_ms, 40000);
}

#[test]
fn single_image_pass_arguments_are_exact() {
    let source = "clip.mkv".to_string();
    let extractions = vec![image_at(2500, "shot.jpg")];
    let passes = plan_passes(&source, &extractions);
    assert_eq!(passes.len(), 1);
    let expected: Vec<String> = [
        "-ss",
        "2.5",
        "-i",
        "clip.mkv",
        "-ss",
        "0",
        "-vframes",
        "1",
        "-filter_complex",
        "scale=iw*min(1\\,min(1024/iw\\,768/ih)):-1",
        "-f",
        "image2",
        "shot.jpg",
    ]
    .iter()
    .map(|s| s.to_string())
    .collect();
    assert_eq!(passes[0].args, expected);
}

#[test]
fn audio_pass_encodes_stream_metadata_and_span() {
    let source = "clip.mkv".to_string();
    let mut metadata = Id3Metadata::default();
    metadata.genre = Some("Language Learning".to_string());
    metadata.track_number = Some((3, 12));
    let extractions = vec![Extraction {
        path: "clip03.mp3".to_string(),
        kind: ExtractionSpec::Audio {
            stream: Some(StreamId(1)),
            period: Period::from_ms(60250, 62300).unwrap(),
            metadata,
        },
    }];
    let passes = plan_passes(&source, &extractions);
    assert_eq!(passes.len(), 1);
    let expected: Vec<String> = [
        "-ss",
        "60.25",
        "-i",
        "clip.mkv",
        "-map",
        "0:1",
        "-metadata",
        "genre=Language Learning",
        "-metadata",
        "track=3/12",
        "-ss",
        "0",
        "-t",
        "2.05",
        "clip03.mp3",
    ]
    .iter()
    .map(|s| s.to_string())
    .collect();
    assert_eq!(passes[0].args, expected);
}

#[test]
fn encoding_is_deterministic() {
    let e = audio_span(1500, 3750, "x.mp3");
    let first = e.encode_args(500);
    let second = e.encode_args(500);
    assert_eq!(first, second);
    let img = image_at(9999, "y.jpg");
    assert_eq!(img.encode_args(999), img.encode_args(999));
}

#[test]
fn empty_extraction_list_plans_no_passes() {
    let source = "clip.mkv".to_string();
    let passes = plan_passes(&source, &Vec::new());
    assert_eq!(passes.len(), 0);
}

#[test]
fn process_outcome_follows_exit_status() {
    assert!(process_outcome(true, "decoder").is_ok());
    let r = process_outcome(false, "decoder");
    assert!(matches!(r, Err(MediaError::ExtractionProcessFailed { .. })));
}

#[test]
fn sortedness_check_matches_order() {
    let sorted = vec![image_at(0, "a.jpg"), audio_span(1000, 2000, "b.mp3"), image_at(5000, "c.jpg")];
    assert!(is_sorted_by_earliest(&sorted));
    let unsorted = vec![image_at(5000, "a.jpg"), image_at(0, "b.jpg")];
    assert!(!is_sorted_by_earliest(&unsorted));
    assert!(is_sorted_by_earliest(&Vec::new()));
}

#[test]
fn period_refuses_reversed_span() {
    assert!(Period::from_ms(5, 3).is_none());
    let p = Period::from_ms(250, 1250).unwrap();
    assert_eq!(p.begin_ms(), 250);
    assert_eq!(p.end_ms(), 1250);
    assert_eq!(p.duration_ms(), 1000);
}
