//! Extraction requests and their command encoding.
//!
//! An [`Extraction`] names a destination path and what to put there: a
//! still image at an instant, or an audio span with optional embedded
//! metadata. Each request encodes itself into a list of discrete argument
//! tokens for the external decode tool, relative to the time base of the
//! decode pass that carries it. All times are whole milliseconds.

use vstd::prelude::*;

use crate::stream::StreamId;
use crate::textfmt::{dec_str, ms_arg, ms_text, strings_view, u64_to_dec};

verus! {

/// A time span within the source file, in whole milliseconds; the end never
/// precedes the beginning.
#[derive(Clone, Copy, Debug, PartialEq, Eq, Structural)]
pub struct Period {
    begin_ms: u64,
    end_ms: u64,
}

impl Period {
    /// When the span begins.
    pub closed spec fn spec_begin(&self) -> u64 {
        self.begin_ms
    }

    /// When the span ends.
    pub closed spec fn spec_end(&self) -> u64 {
        self.end_ms
    }

    /// The end never precedes the beginning.
    pub open spec fn wf(&self) -> bool {
        self.spec_begin() <= self.spec_end()
    }

    /// How long the span lasts.
    pub open spec fn spec_duration(&self) -> int {
        self.spec_end() - self.spec_begin()
    }

    /// Build a span; refused when the end precedes the beginning.
    pub fn from_ms(begin_ms: u64, end_ms: u64) -> (r: Option<Period>)
        ensures
            r is Some <==> begin_ms <= end_ms,
            r matches Some(p) ==> p.spec_begin() == begin_ms && p.spec_end() == end_ms && p.wf(),
    {
        if begin_ms <= end_ms {
            Some(Period { begin_ms, end_ms })
        } else {
            None
        }
    }

    /// When the span begins.
    pub fn begin_ms(&self) -> (r: u64)
        ensures
            r == self.spec_begin(),
    {
        self.begin_ms
    }

    /// When the span ends.
    pub fn end_ms(&self) -> (r: u64)
        ensures
            r == self.spec_end(),
    {
        self.end_ms
    }

    /// How long the span lasts.
    pub fn duration_ms(&self) -> (r: u64)
        requires
            self.wf(),
        ensures
            r == self.spec_duration(),
    {
        self.end_ms - self.begin_ms
    }
}

/// Optional textual metadata to embed into an extracted audio artifact.
/// Absent fields are simply omitted from the embedding.
#[derive(Clone, Debug)]
pub struct Id3Metadata {
    /// The genre tag.
    pub genre: Option<String>,
    /// The artist tag.
    pub artist: Option<String>,
    /// The album tag.
    pub album: Option<String>,
    /// The track number and the track total.
    pub track_number: Option<(usize, usize)>,
    /// The title tag.
    pub track_name: Option<String>,
    /// The lyrics tag.
    pub lyrics: Option<String>,
}

impl Default for Id3Metadata {
    /// No metadata at all.
    fn default() -> (r: Id3Metadata)
        ensures
            r.genre is None,
            r.artist is None,
            r.album is None,
            r.track_number is None,
            r.track_name is None,
            r.lyrics is None,
    {
        Id3Metadata {
            genre: None,
            artist: None,
            album: None,
            track_number: None,
            track_name: None,
            lyrics: None,
        }
    }
}

/// The argument pair embedding one optional tag: the flag, then the tag
/// name's prefix joined with the value; nothing when the field is absent.
pub open spec fn opt_tag_args(prefix: Seq<char>, v: Option<String>) -> Seq<Seq<char>> {
    match v {
        Some(s) => seq!["-metadata"@, prefix + s@],
        None => Seq::empty(),
    }
}

/// The argument pair embedding the track number and total; nothing when
/// absent.
pub open spec fn track_args(v: Option<(usize, usize)>) -> Seq<Seq<char>> {
    match v {
        Some(t) => seq!["-metadata"@, "track="@ + dec_str(t.0 as nat) + "/"@ + dec_str(t.1 as nat)],
        None => Seq::empty(),
    }
}

/// The arguments embedding every present metadata field, in a fixed order.
pub open spec fn metadata_args(m: Id3Metadata) -> Seq<Seq<char>> {
    opt_tag_args("genre="@, m.genre) + opt_tag_args("artist="@, m.artist) + opt_tag_args(
        "album="@,
        m.album,
    ) + track_args(m.track_number) + opt_tag_args("title="@, m.track_name) + opt_tag_args(
        "lyrics="@,
        m.lyrics,
    )
}

/// The dimension-bounding filter: scales down, never up, to fit
/// 1024 by 768 while preserving aspect ratio.
pub open spec fn scale_filter() -> Seq<char> {
    "scale=iw*min(1\\,min(1024/iw\\,768/ih)):-1"@
}

/// What kind of data to extract, and from what position in the source.
#[derive(Clone, Debug)]
pub enum ExtractionSpec {
    /// Extract a still image at the given instant. This only works with
    /// genuine video streams, not attached pictures.
    Image {
        /// When to take the image, in milliseconds.
        time_ms: u64,
    },
    /// Extract an audio clip covering a span.
    Audio {
        /// The stream to extract from, or none for the tool's default.
        stream: Option<StreamId>,
        /// The span to extract.
        period: Period,
        /// Metadata to embed into the extracted file.
        metadata: Id3Metadata,
    },
}

impl ExtractionSpec {
    /// The earliest instant the request needs data from.
    pub open spec fn spec_earliest_ms(&self) -> u64 {
        match self {
            ExtractionSpec::Image { time_ms } => *time_ms,
            ExtractionSpec::Audio { period, .. } => period.spec_begin(),
        }
    }

    /// An audio span is well-formed; an image instant always is.
    pub open spec fn wf(&self) -> bool {
        match self {
            ExtractionSpec::Image { .. } => true,
            ExtractionSpec::Audio { period, .. } => period.wf(),
        }
    }

    /// Whether the request can share a decode pass with others: audio can,
    /// an image cannot — it takes a fast seek and a single-frame capture of
    /// its own.
    pub open spec fn spec_batchable(&self) -> bool {
        self is Audio
    }

    /// The earliest instant the request needs data from.
    pub fn earliest_time_ms(&self) -> (r: u64)
        ensures
            r == self.spec_earliest_ms(),
    {
        match self {
            ExtractionSpec::Image { time_ms } => *time_ms,
            ExtractionSpec::Audio { period, .. } => period.begin_ms(),
        }
    }

    /// Whether the request can share a decode pass with others.
    pub fn can_be_batched(&self) -> (r: bool)
        ensures
            r == self.spec_batchable(),
    {
        matches!(self, ExtractionSpec::Audio { .. })
    }
}

/// The argument tokens encoding one request against a pass beginning at
/// `time_base_ms`: for an image, a relative seek, a one-frame limit, the
/// bounding filter and still-image output; for audio, the optional explicit
/// stream selector, the embedded metadata, a relative seek and the clip
/// duration.
pub open spec fn spec_item_args(x: ExtractionSpec, time_base_ms: u64) -> Seq<Seq<char>> {
    match x {
        ExtractionSpec::Image { time_ms } => seq![
            "-ss"@,
            ms_text((time_ms - time_base_ms) as u64),
            "-vframes"@,
            "1"@,
            "-filter_complex"@,
            scale_filter(),
            "-f"@,
            "image2"@,
        ],
        ExtractionSpec::Audio { stream, period, metadata } => (match stream {
            Some(sid) => seq!["-map"@, "0:"@ + dec_str(sid.0 as nat)],
            None => Seq::empty(),
        }) + metadata_args(metadata) + seq![
            "-ss"@,
            ms_text((period.spec_begin() - time_base_ms) as u64),
            "-t"@,
            ms_text(period.spec_duration() as u64),
        ],
    }
}

impl ExtractionSpec {
    /// Encode the request against a pass beginning at `time_base_ms`, which
    /// must not lie after the request's earliest instant.
    pub fn encode_args(&self, time_base_ms: u64) -> (r: Vec<String>)
        requires
            time_base_ms <= self.spec_earliest_ms(),
            self.wf(),
        ensures
            strings_view(r@) == spec_item_args(*self, time_base_ms),
    {
        let mut out: Vec<String> = Vec::new();
        match self {
            ExtractionSpec::Image { time_ms } => {
                out.push("-ss".to_owned());
                out.push(ms_arg(*time_ms - time_base_ms));
                out.push("-vframes".to_owned());
                out.push("1".to_owned());
                out.push("-filter_complex".to_owned());
                out.push("scale=iw*min(1\\,min(1024/iw\\,768/ih)):-1".to_owned());
                out.push("-f".to_owned());
                out.push("image2".to_owned());
                proof {
                    assert(strings_view(out@) =~~= spec_item_args(*self, time_base_ms));
                }
            },
            ExtractionSpec::Audio { stream, period, metadata } => {
                if let Some(sid) = stream {
                    out.push("-map".to_owned());
                    let mut sel = "0:".to_owned();
                    let idx = u64_to_dec(sid.0 as u64);
                    sel.append(idx.as_str());
                    out.push(sel);
                }
                proof {
                    assert(strings_view(out@) =~~= (match *stream {
                        Some(sid) => seq!["-map"@, "0:"@ + dec_str(sid.0 as nat)],
                        None => Seq::<Seq<char>>::empty(),
                    }));
                }
                let ghost after_map = out@;
                push_metadata_args(&mut out, metadata);
                let ghost after_meta = out@;
                out.push("-ss".to_owned());
                out.push(ms_arg(period.begin_ms() - time_base_ms));
                out.push("-t".to_owned());
                out.push(ms_arg(period.duration_ms()));
                proof {
                    assert(strings_view(out@) =~~= strings_view(after_meta) + seq![
                        "-ss"@,
                        ms_text((period.spec_begin() - time_base_ms) as u64),
                        "-t"@,
                        ms_text(period.spec_duration() as u64),
                    ]);
                    assert(strings_view(out@) =~~= spec_item_args(*self, time_base_ms));
                }
            },
        }
        out
    }
}

/// Append the argument pair for one optional tag.
fn push_tag(out: &mut Vec<String>, prefix: &str, v: &Option<String>)
    ensures
        strings_view(final(out)@) == strings_view(old(out)@) + opt_tag_args(prefix@, *v),
{
    match v {
        None => {
            proof {
                assert(strings_view(out@) =~~= strings_view(out@) + opt_tag_args(prefix@, *v));
            }
        },
        Some(s) => {
            out.push("-metadata".to_owned());
            let mut t = prefix.to_owned();
            t.append(s.as_str());
            out.push(t);
            proof {
                assert(strings_view(out@) =~~= strings_view(old(out)@) + opt_tag_args(prefix@, *v));
            }
        },
    }
}

/// Append the argument pairs embedding every present metadata field.
fn push_metadata_args(out: &mut Vec<String>, m: &Id3Metadata)
    ensures
        strings_view(final(out)@) == strings_view(old(out)@) + metadata_args(*m),
{
    push_tag(out, "genre=", &m.genre);
    push_tag(out, "artist=", &m.artist);
    push_tag(out, "album=", &m.album);
    let ghost before_track = out@;
    if let Some(t) = m.track_number {
        out.push("-metadata".to_owned());
        let mut text = "track=".to_owned();
        let tn = u64_to_dec(t.0 as u64);
        text.append(tn.as_str());
        text.append("/");
        let tt = u64_to_dec(t.1 as u64);
        text.append(tt.as_str());
        out.push(text);
    }
    proof {
        assert(strings_view(out@) =~~= strings_view(before_track) + track_args(m.track_number));
    }
    push_tag(out, "title=", &m.track_name);
    push_tag(out, "lyrics=", &m.lyrics);
    proof {
        assert(strings_view(out@) =~~= strings_view(old(out)@) + metadata_args(*m));
    }
}

/// What to extract, and where to put it.
#[derive(Clone, Debug)]
pub struct Extraction {
    /// The destination path.
    pub path: String,
    /// What to extract.
    pub kind: ExtractionSpec,
}

/// The argument tokens encoding one extraction: its request's tokens, then
/// its destination path.
pub open spec fn spec_extraction_args(e: Extraction, time_base_ms: u64) -> Seq<Seq<char>> {
    spec_item_args(e.kind, time_base_ms) + seq![e.path@]
}

impl Extraction {
    /// The earliest instant the extraction needs data from.
    pub open spec fn spec_earliest_ms(&self) -> u64 {
        self.kind.spec_earliest_ms()
    }

    /// The audio span, when there is one, is well-formed.
    pub open spec fn wf(&self) -> bool {
        self.kind.wf()
    }

    /// The earliest instant the extraction needs data from.
    pub fn earliest_time_ms(&self) -> (r: u64)
        ensures
            r == self.spec_earliest_ms(),
    {
        self.kind.earliest_time_ms()
    }

    /// Encode the extraction against a pass beginning at `time_base_ms`.
    pub fn encode_args(&self, time_base_ms: u64) -> (r: Vec<String>)
        requires
            time_base_ms <= self.spec_earliest_ms(),
            self.wf(),
        ensures
            strings_view(r@) == spec_extraction_args(*self, time_base_ms),
    {
        let mut out = self.kind.encode_args(time_base_ms);
        out.push(self.path.clone());
        proof {
            assert(strings_view(out@) =~~= spec_extraction_args(*self, time_base_ms));
        }
        out
    }
}

/// Encoding is deterministic: two argument lists encoded from the same
/// extraction against the same time base are identical.
pub proof fn lemma_encode_deterministic(
    a: Seq<Seq<char>>,
    b: Seq<Seq<char>>,
    e: Extraction,
    time_base_ms: u64,
)
    requires
        a == spec_extraction_args(e, time_base_ms),
        b == spec_extraction_args(e, time_base_ms),
    ensures
        a == b,
{
}

} // verus!
