use media_extract::{CodecType, Lang, MediaError, Stream};

#[test]
fn test_stream_decode() {
    let json = "
{
  \"index\" : 2,
  \"codec_name\" : \"aac\",
  \"codec_long_name\" : \"AAC (Advanced Audio Coding)\",
  \"codec_type\" : \"audio\",
  \"codec_time_base\" : \"1/48000\",
  \"codec_tag_string\" : \"[0][0][0][0]\",
  \"codec_tag\" : \"0x0000\",
  \"sample_rate\" : \"48000.000000\",
  \"channels\" : 2,
  \"bits_per_sample\" : 0,
  \"avg_frame_rate\" : \"0/0\",
  \"time_base\" : \"1/1000\",
  \"start_time\" : \"0.000000\",
  \"duration\" : \"N/A\",
  \"tags\" : {
    \"language\" : \"eng\"
  }
}
";
    let stream: Stream = Stream::parse_record(json).unwrap();
    assert_eq!(CodecType::Audio, stream.codec_type);
    assert_eq!(Some(Lang::iso639("en").unwrap()), stream.language())
}

#[test]
fn record_keeps_index_and_unknown_codec() {
    let json = "{ \"index\": 7, \"codec_type\": \"data\" }";
    let stream = Stream::parse_record(json).unwrap();
    assert_eq!(stream.index, 7);
    assert_eq!(CodecType::Other("data".to_string()), stream.codec_type);
    assert!(stream.tags.is_none());
    assert!(stream.disposition.is_none());
}

#[test]
fn record_missing_index_is_rejected() {
    let json = "{ \"codec_type\": \"audio\" }";
    let r = Stream::parse_record(json);
    assert!(matches!(r, Err(MediaError::MetadataParseFailed { .. })));
}

#[test]
fn record_with_non_string_tag_is_rejected() {
    let json = "{ \"index\": 0, \"codec_type\": \"audio\", \"tags\": { \"language\": 3 } }";
    let r = Stream::parse_record(json);
    assert!(matches!(r, Err(MediaError::MetadataParseFailed { .. })));
}

#[test]
fn record_with_null_tags_has_none() {
    let json = "{ \"index\": 0, \"codec_type\": \"audio\", \"tags\": null }";
    let stream = Stream::parse_record(json).unwrap();
    assert!(stream.tags.is_none());
}

#[test]
fn attached_pic_flag_is_one() {
    let mut s = Stream {
        index: 0,
        codec_type: CodecType::Video,
        tags: None,
        disposition: Some(vec![("attached_pic".to_string(), 1)]),
    };
    assert!(s.is_attached_pic());
    s.disposition = Some(vec![("attached_pic".to_string(), 0)]);
    assert!(!s.is_attached_pic());
    s.disposition = Some(vec![("attached_pic".to_string(), 2)]);
    assert!(!s.is_attached_pic());
    s.disposition = Some(vec![("default".to_string(), 1)]);
    assert!(!s.is_attached_pic());
    s.disposition = None;
    assert!(!s.is_attached_pic());
}

#[test]
fn language_resolves_two_and_three_letter_codes() {
    assert_eq!(Lang::iso639("en"), Lang::iso639("eng"));
    assert_eq!(Lang::iso639("fr"), Lang::iso639("fra"));
    assert_eq!(Lang::iso639("fr"), Lang::iso639("fre"));
    assert!(Lang::iso639("en").is_some());
    assert!(Lang::iso639("x").is_none());
    assert!(Lang::iso639("abcd").is_none());
    assert!(Lang::iso639("e1").is_none());
    // A three-letter language without a two-letter form keeps three letters.
    assert!(Lang::iso639("fil").is_some());
    assert_ne!(Lang::iso639("fil"), Lang::iso639("fi"));
}

#[test]
fn language_tag_absent_means_no_language() {
    let s = Stream {
        index: 1,
        codec_type: CodecType::Audio,
        tags: Some(vec![("title".to_string(), "Track".to_string())]),
        disposition: None,
    };
    assert_eq!(s.language(), None);
    let t = Stream { index: 1, codec_type: CodecType::Audio, tags: None, disposition: None };
    assert_eq!(t.language(), None);
}
