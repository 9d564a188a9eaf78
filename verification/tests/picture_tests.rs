use media_extract::video::attached_pic_outcome;
use media_extract::{MediaError, Picture, Video};

#[test]
fn read_failure_is_tag_read_failed() {
    let path = "no-such-file.mp3".to_string();
    let r = attached_pic_outcome(&path, None);
    assert!(matches!(r, Err(MediaError::TagReadFailed { .. })));
}

#[test]
fn missing_picture_is_no_attached_picture() {
    let path = "song.mp3".to_string();
    let r = attached_pic_outcome(&path, Some(None));
    assert!(matches!(r, Err(MediaError::NoAttachedPicture { .. })));
}

#[test]
fn found_picture_is_handed_through() {
    let path = "song.mp3".to_string();
    let pic = Picture { mime_type: "image/png".to_string(), data: vec![1, 2, 3] };
    let r = attached_pic_outcome(&path, Some(Some(pic))).unwrap();
    assert_eq!(r.mime_type, "image/png");
    assert_eq!(r.data, vec![1, 2, 3]);
}

#[test]
fn attached_pic_of_unreadable_file_fails() {
    let v = Video::from_probe_output(
        "surely-absent-cover-source.mp3".to_string(),
        "{ \"streams\": [] }",
    )
    .unwrap();
    let r = v.attached_pic();
    assert!(matches!(r, Err(MediaError::TagReadFailed { .. })));
}
