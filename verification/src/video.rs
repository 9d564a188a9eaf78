//! A media file's stream catalog.
//!
//! A [`Video`] is an immutable snapshot: the file's path and the stream list
//! decoded from the probe tool's JSON output. It is built once and never
//! mutated; every query is a pure read over the snapshot. Spawning the probe
//! and decode processes is the caller's business; this module decodes,
//! selects and encodes.

use vstd::prelude::*;

use crate::errors::MediaError;
use crate::json::{json_from_str, json_model, json_of_text, value_as_array, value_get, Json};
use crate::lang::Lang;
use crate::stream::{
    spec_is_attached_pic, spec_language, stream_of_json, CodecType, Stream, StreamId, StreamView,
};
use crate::textfmt::{dec_str, u64_to_dec};

verus! {

/// What kind of image source a file contains.
#[derive(Clone, Copy, Debug, PartialEq, Eq, Structural)]
pub enum ImageSourceType {
    /// A true video stream, which presumably changes over time.
    Video,
    /// An attached picture, which is probably album art.
    AttachedPic,
}

/// An embedded picture: its MIME type and its bytes.
#[derive(Clone, Debug)]
pub struct Picture {
    /// The MIME type of the picture.
    pub mime_type: String,
    /// The picture data.
    pub data: Vec<u8>,
}

/// The content of a [`Video`].
pub struct VideoView {
    /// The source file's path.
    pub path: Seq<char>,
    /// The decoded stream list, in container order.
    pub streams: Seq<Stream>,
}

/// A media file on disk: its path and its probed stream list.
#[derive(Clone, Debug)]
pub struct Video {
    path: String,
    streams: Vec<Stream>,
}

impl View for Video {
    type V = VideoView;

    closed spec fn view(&self) -> VideoView {
        VideoView { path: self.path@, streams: self.streams@ }
    }
}

/// The record array of a probe document: the `streams` member of the
/// top-level object.
pub open spec fn streams_records(j: Json) -> Option<Seq<Json>> {
    if j is Obj && j->Obj_0.contains_key("streams"@) && j->Obj_0["streams"@] is Arr {
        Some(j->Obj_0["streams"@]->Arr_0)
    } else {
        None
    }
}

/// What decoding a probe document yields: every stream record decoded, in
/// original order; nothing when the document lacks a `streams` array or any
/// record is malformed.
pub open spec fn metadata_of_json(j: Json) -> Option<Seq<StreamView>> {
    match streams_records(j) {
        Some(rs) => if forall|i: int| 0 <= i < rs.len() ==> stream_of_json(#[trigger] rs[i]) is Some {
            Some(Seq::new(rs.len(), |i: int| stream_of_json(rs[i])->Some_0))
        } else {
            None
        },
        None => None,
    }
}

/// Decoding a probe document keeps every well-formed record, in its
/// original place: the decoded list has exactly one entry per record, and
/// the entry at each position is that record's content.
pub proof fn lemma_metadata_preserves_records(j: Json)
    requires
        metadata_of_json(j) is Some,
    ensures
        streams_records(j) is Some,
        metadata_of_json(j)->Some_0.len() == streams_records(j)->Some_0.len(),
        forall|i: int|
            0 <= i < streams_records(j)->Some_0.len() ==> metadata_of_json(j)->Some_0[i]
                == stream_of_json(#[trigger] streams_records(j)->Some_0[i])->Some_0,
{
}

/// A position holds the first stream classified as video.
pub open spec fn is_first_video(ss: Seq<Stream>, i: int) -> bool {
    &&& 0 <= i < ss.len()
    &&& ss[i]@.codec_type is Video
    &&& forall|j: int| 0 <= j < i ==> !((#[trigger] ss[j])@.codec_type is Video)
}

/// A stream is an audio stream resolving to the given language.
pub open spec fn stream_matches_lang(s: Stream, lang: Lang) -> bool {
    s@.codec_type is Audio && spec_language(s@) == Some(lang)
}

/// A position holds the first audio stream of the given language.
pub open spec fn is_first_audio_for(ss: Seq<Stream>, lang: Lang, i: int) -> bool {
    &&& 0 <= i < ss.len()
    &&& stream_matches_lang(ss[i], lang)
    &&& forall|j: int| 0 <= j < i ==> !stream_matches_lang(#[trigger] ss[j], lang)
}

impl Video {
    /// Build the snapshot for a file from the probe tool's JSON output.
    /// Succeeds exactly when the text is valid JSON whose top-level object
    /// carries a `streams` array of well-formed records; the stream list is
    /// then the records' content in original order.
    pub fn from_probe_output(path: String, probe_json: &str) -> (r: Result<Video, MediaError>)
        ensures
            r is Ok <==> (json_of_text(probe_json@) matches Some(j) && metadata_of_json(j)
                is Some),
            r matches Ok(v) ==> v@.path == path@,
            r matches Ok(v) ==> (json_of_text(probe_json@) matches Some(j) && v@.streams
                .map_values(|s: Stream| s@) == metadata_of_json(j)->Some_0),
            r matches Err(e) ==> e is ProbeFailed,
    {
        let jv = match json_from_str(probe_json) {
            None => {
                return Err(MediaError::ProbeFailed { path });
            },
            Some(jv) => jv,
        };
        let arr = match value_get(&jv, "streams") {
            None => {
                return Err(MediaError::ProbeFailed { path });
            },
            Some(x) => match value_as_array(x) {
                None => {
                    return Err(MediaError::ProbeFailed { path });
                },
                Some(a) => a,
            },
        };
        let ghost rs = streams_records(json_model(jv))->Some_0;
        let n = arr.len();
        let mut streams: Vec<Stream> = Vec::new();
        let mut i: usize = 0;
        while i < n
            invariant
                i <= n == arr@.len(),
                streams@.len() == i,
                json_of_text(probe_json@) == Some(json_model(jv)),
                streams_records(json_model(jv)) == Some(rs),
                rs.len() == arr@.len(),
                forall|k: int| 0 <= k < arr@.len() ==> json_model(#[trigger] arr@[k]) == rs[k],
                forall|k: int| 0 <= k < i ==> stream_of_json(#[trigger] rs[k]) is Some,
                forall|k: int|
                    0 <= k < i ==> (#[trigger] streams@[k])@ == stream_of_json(rs[k])->Some_0,
            decreases n - i,
        {
            match Stream::from_json(&arr[i]) {
                Err(_) => {
                    proof {
                        assert(json_model(arr@[i as int]) == rs[i as int]);
                        assert(stream_of_json(rs[i as int]) is None);
                    }
                    return Err(MediaError::ProbeFailed { path });
                },
                Ok(s) => {
                    streams.push(s);
                },
            }
            i = i + 1;
        }
        proof {
            assert(streams@.map_values(|s: Stream| s@) =~= Seq::new(
                rs.len(),
                |k: int| stream_of_json(rs[k])->Some_0,
            ));
        }
        Ok(Video { path, streams })
    }

    /// The source file's path.
    pub fn path(&self) -> (r: &String)
        ensures
            r@ == self@.path,
    {
        &self.path
    }

    /// All the data streams of the file, in original container order.
    pub fn streams(&self) -> (r: &Vec<Stream>)
        ensures
            r@ == self@.streams,
    {
        &self.streams
    }

    /// The primary video stream: the first stream classified as video, or
    /// nothing when the file has none.
    pub fn primary_video_stream(&self) -> (r: Option<&Stream>)
        ensures
            r matches Some(s) ==> exists|i: int| is_first_video(self@.streams, i) && *s
                == self@.streams[i],
            r is None <==> (forall|i: int|
                0 <= i < self@.streams.len() ==> !((#[trigger] self@.streams[i])@.codec_type
                    is Video)),
    {
        let n = self.streams.len();
        let mut i: usize = 0;
        while i < n
            invariant
                i <= n == self@.streams.len(),
                forall|j: int|
                    0 <= j < i ==> !((#[trigger] self@.streams[j])@.codec_type is Video),
            decreases n - i,
        {
            if matches!(self.streams[i].codec_type, CodecType::Video) {
                return Some(&self.streams[i]);
            }
            i = i + 1;
        }
        None
    }

    /// What kind of image source the file contains: nothing without a video
    /// stream, an attached picture when the primary video stream is flagged
    /// as one, a true video stream otherwise.
    pub fn image_source_type(&self) -> (r: Option<ImageSourceType>)
        ensures
            r is None <==> (forall|i: int|
                0 <= i < self@.streams.len() ==> !((#[trigger] self@.streams[i])@.codec_type
                    is Video)),
            r matches Some(t) ==> exists|i: int|
                is_first_video(self@.streams, i) && t == (if spec_is_attached_pic(
                    self@.streams[i]@,
                ) {
                    ImageSourceType::AttachedPic
                } else {
                    ImageSourceType::Video
                }),
    {
        match self.primary_video_stream() {
            None => None,
            Some(s) => if s.is_attached_pic() {
                Some(ImageSourceType::AttachedPic)
            } else {
                Some(ImageSourceType::Video)
            },
        }
    }

    /// The best audio track for a language: the first audio stream that
    /// resolves to it, by position in the stream list; nothing when no
    /// stream matches.
    pub fn audio_track_for(&self, lang: Lang) -> (r: Option<StreamId>)
        ensures
            r matches Some(sid) ==> is_first_audio_for(self@.streams, lang, sid.0 as int),
            r is None <==> (forall|i: int|
                0 <= i < self@.streams.len() ==> !stream_matches_lang(
                    #[trigger] self@.streams[i],
                    lang,
                )),
    {
        let n = self.streams.len();
        let mut i: usize = 0;
        while i < n
            invariant
                i <= n == self@.streams.len(),
                forall|j: int|
                    0 <= j < i ==> !stream_matches_lang(#[trigger] self@.streams[j], lang),
            decreases n - i,
        {
            let is_audio = matches!(self.streams[i].codec_type, CodecType::Audio);
            if is_audio {
                let matched = match self.streams[i].language() {
                    Some(l) => l == lang,
                    None => false,
                };
                if matched {
                    return Some(StreamId(i));
                }
            }
            i = i + 1;
        }
        None
    }

    /// The embedded cover picture of the file, read from its tag container:
    /// fails when the container cannot be read, or holds no picture.
    pub fn attached_pic(&self) -> (r: Result<Picture, MediaError>)
        ensures
            r matches Err(e) ==> (e is TagReadFailed || e is NoAttachedPicture),
    {
        let read = read_album_cover(&self.path);
        attached_pic_outcome(&self.path, read)
    }
}

/// The arguments of the continuous audio decode: quiet logging, the input
/// file, the optional explicit stream selector, single-channel 16-bit
/// signed PCM matching the host's endianness at the requested rate, written
/// to standard output.
pub open spec fn spec_audio_stream_args(
    path: Seq<char>,
    stream: Option<StreamId>,
    rate: usize,
    big_endian: bool,
) -> Seq<Seq<char>> {
    seq!["-v"@, "quiet"@, "-i"@, path] + (match stream {
        Some(sid) => seq!["-map"@, "0:"@ + dec_str(sid.0 as nat)],
        None => Seq::empty(),
    }) + seq![
        "-acodec"@,
        if big_endian {
            "pcm_s16be"@
        } else {
            "pcm_s16le"@
        },
        "-f"@,
        if big_endian {
            "s16be"@
        } else {
            "s16le"@
        },
        "-ac"@,
        "1"@,
        "-ar"@,
        dec_str(rate as nat),
        "-"@,
    ]
}

impl Video {
    /// The decode-tool arguments that stream this file's audio as raw
    /// single-channel 16-bit PCM at `rate` to standard output. With no
    /// stream selector, the tool's own default-stream rule applies.
    /// `big_endian` names the host platform's byte order.
    pub fn audio_stream_args(&self, stream: Option<StreamId>, rate: usize, big_endian: bool) -> (r:
        Vec<String>)
        ensures
            crate::textfmt::strings_view(r@) == spec_audio_stream_args(
                self@.path,
                stream,
                rate,
                big_endian,
            ),
    {
        let mut out: Vec<String> = Vec::new();
        out.push("-v".to_owned());
        out.push("quiet".to_owned());
        out.push("-i".to_owned());
        out.push(self.path.clone());
        if let Some(sid) = stream {
            out.push("-map".to_owned());
            let mut sel = "0:".to_owned();
            let idx = u64_to_dec(sid.0 as u64);
            sel.append(idx.as_str());
            out.push(sel);
        }
        out.push("-acodec".to_owned());
        out.push(if big_endian {
            "pcm_s16be".to_owned()
        } else {
            "pcm_s16le".to_owned()
        });
        out.push("-f".to_owned());
        out.push(if big_endian {
            "s16be".to_owned()
        } else {
            "s16le".to_owned()
        });
        out.push("-ac".to_owned());
        out.push("1".to_owned());
        out.push("-ar".to_owned());
        out.push(u64_to_dec(rate as u64));
        out.push("-".to_owned());
        proof {
            assert(crate::textfmt::strings_view(out@) =~~= spec_audio_stream_args(
                self@.path,
                stream,
                rate,
                big_endian,
            ));
        }
        out
    }
}

/// What each outcome of a cover read means: a failed read is
/// [`MediaError::TagReadFailed`], a container without a picture is
/// [`MediaError::NoAttachedPicture`], and a picture is handed through.
pub fn attached_pic_outcome(path: &String, read: Option<Option<Picture>>) -> (r: Result<
    Picture,
    MediaError,
>)
    ensures
        r is Ok <==> (read matches Some(p) && p is Some),
        r matches Ok(p) ==> read == Some(Some(p)),
        r matches Err(e) ==> if read is None {
            e matches MediaError::TagReadFailed { path: q } && q@ == path@
        } else {
            e matches MediaError::NoAttachedPicture { path: q } && q@ == path@
        },
{
    match read {
        None => Err(MediaError::TagReadFailed { path: path.clone() }),
        Some(None) => Err(MediaError::NoAttachedPicture { path: path.clone() }),
        Some(Some(p)) => Ok(p),
    }
}

/// Relies on `audiotags::Tag::read_from_path` and `AudioTag::album_cover`:
/// reads the file's tag container and yields its first embedded picture's
/// MIME type and bytes. What comes back depends on what is on disk, so
/// nothing is promised of the outcome; [`attached_pic_outcome`] says what
/// each outcome means.
#[verifier::external_body]
fn read_album_cover(path: &String) -> (r: Option<Option<Picture>>) {
    match audiotags::Tag::new().read_from_path(path.as_str()) {
        Err(_) => None,
        Ok(tag) => Some(
            tag.album_cover().map(
                |p| Picture { mime_type: String::from(p.mime_type), data: p.data.to_vec() },
            ),
        ),
    }
}

} // verus!
