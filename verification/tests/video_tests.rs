use media_extract::{
    CodecType, ImageSourceType, Lang, MediaError, Stream, StreamId, Video,
};

fn probe_three_streams() -> &'static str {
    "{ \"streams\": [ \
        { \"index\": 0, \"codec_type\": \"video\" }, \
        { \"index\": 1, \"codec_type\": \"audio\", \"tags\": { \"language\": \"eng\" } }, \
        { \"index\": 2, \"codec_type\": \"subtitle\", \"tags\": { \"language\": \"fra\" } } \
    ] }"
}

#[test]
fn probe_output_keeps_every_record_in_order() {
    let v = Video::from_probe_output("clip.mkv".to_string(), probe_three_streams()).unwrap();
    let ss: &Vec<Stream> = v.streams();
    assert_eq!(ss.len(), 3);
    assert_eq!(ss[0].index, 0);
    assert_eq!(ss[1].index, 1);
    assert_eq!(ss[2].index, 2);
    assert_eq!(ss[0].codec_type, CodecType::Video);
    assert_eq!(ss[1].codec_type, CodecType::Audio);
    assert_eq!(ss[2].codec_type, CodecType::Subtitle);
    assert_eq!(v.path().as_str(), "clip.mkv");
}

#[test]
fn invalid_probe_output_fails() {
    let r = Video::from_probe_output("clip.mkv".to_string(), "not json");
    assert!(matches!(r, Err(MediaError::ProbeFailed { .. })));
    let r = Video::from_probe_output("clip.mkv".to_string(), "{ \"other\": [] }");
    assert!(matches!(r, Err(MediaError::ProbeFailed { .. })));
    let r = Video::from_probe_output(
        "clip.mkv".to_string(),
        "{ \"streams\": [ { \"codec_type\": \"audio\" } ] }",
    );
    assert!(matches!(r, Err(MediaError::ProbeFailed { .. })));
}

#[test]
fn empty_stream_list_is_valid() {
    let v = Video::from_probe_output("clip.mkv".to_string(), "{ \"streams\": [] }").unwrap();
    assert_eq!(v.streams().len(), 0);
    assert!(v.primary_video_stream().is_none());
    assert!(v.image_source_type().is_none());
}

#[test]
fn audio_track_selection_by_language() {
    let probe = "{ \"streams\": [ \
        { \"index\": 0, \"codec_type\": \"audio\", \"tags\": { \"language\": \"eng\" } }, \
        { \"index\": 1, \"codec_type\": \"audio\", \"tags\": { \"language\": \"fra\" } } \
    ] }";
    let v = Video::from_probe_output("clip.mkv".to_string(), probe).unwrap();
    let french = Lang::iso639("fr").unwrap();
    assert_eq!(v.audio_track_for(french), Some(StreamId(1)));
    let german = Lang::iso639("de").unwrap();
    assert_eq!(v.audio_track_for(german), None);
}

#[test]
fn audio_track_ties_break_by_lowest_index() {
    let probe = "{ \"streams\": [ \
        { \"index\": 0, \"codec_type\": \"video\" }, \
        { \"index\": 1, \"codec_type\": \"audio\", \"tags\": { \"language\": \"eng\" } }, \
        { \"index\": 2, \"codec_type\": \"audio\", \"tags\": { \"language\": \"en\" } } \
    ] }";
    let v = Video::from_probe_output("clip.mkv".to_string(), probe).unwrap();
    let english = Lang::iso639("en").unwrap();
    assert_eq!(v.audio_track_for(english), Some(StreamId(1)));
}

#[test]
fn image_source_distinguishes_attached_pictures() {
    let v = Video::from_probe_output("clip.mkv".to_string(), probe_three_streams()).unwrap();
    assert_eq!(v.image_source_type(), Some(ImageSourceType::Video));

    let art = "{ \"streams\": [ \
        { \"index\": 0, \"codec_type\": \"audio\" }, \
        { \"index\": 1, \"codec_type\": \"video\", \"disposition\": { \"attached_pic\": 1 } } \
    ] }";
    let v = Video::from_probe_output("song.mp3".to_string(), art).unwrap();
    assert_eq!(v.image_source_type(), Some(ImageSourceType::AttachedPic));
    assert_eq!(v.primary_video_stream().unwrap().index, 1);
}

#[test]
fn audio_stream_args_default_stream() {
    let v = Video::from_probe_output("audio16000.mp3".to_string(), "{ \"streams\": [] }").unwrap();
    let args = v.audio_stream_args(None, 8000, false);
    let expected: Vec<String> = [
        "-v", "quiet", "-i", "audio16000.mp3", "-acodec", "pcm_s16le", "-f", "s16le", "-ac", "1",
        "-ar", "8000", "-",
    ]
    .iter()
    .map(|s| s.to_string())
    .collect();
    assert_eq!(args, expected);
}

#[test]
fn audio_stream_args_explicit_stream_and_endianness() {
    let v = Video::from_probe_output("clip.mkv".to_string(), "{ \"streams\": [] }").unwrap();
    let args = v.audio_stream_args(Some(StreamId(2)), 16000, true);
    let expected: Vec<String> = [
        "-v", "quiet", "-i", "clip.mkv", "-map", "0:2", "-acodec", "pcm_s16be", "-f", "s16be",
        "-ac", "1", "-ar", "16000", "-",
    ]
    .iter()
    .map(|s| s.to_string())
    .collect();
    assert_eq!(args, expected);
}
