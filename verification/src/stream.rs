//! Streams of a media container, as the probe reports them.
//!
//! A stream record is decoded from a JSON object with an `index`, a
//! `codec_type`, and optional `tags` and `disposition` member maps. Unknown
//! codec classifications round-trip through [`CodecType::Other`]; they never
//! fail decoding.

use vstd::prelude::*;

use crate::errors::MediaError;
use crate::json::{
    json_model, value_as_str, value_as_u64, value_get, value_is_null, value_object_entries, Json,
};
use crate::lang::{spec_iso639, Lang};
use crate::textfmt::str_eq;

verus! {

/// The identifier of a data stream within a media container: a zero-based
/// index into the stream list of the file it came from.
#[derive(Clone, Copy, Debug, PartialEq, Eq, Structural)]
pub struct StreamId(pub usize);

/// The content of a [`CodecType`].
pub enum CodecKind {
    /// An audio stream.
    Audio,
    /// A video stream.
    Video,
    /// A subtitle stream.
    Subtitle,
    /// Any other classification, kept as reported.
    Other(Seq<char>),
}

/// The classification of one stream.
#[derive(Clone, Debug)]
pub enum CodecType {
    /// An audio stream.
    Audio,
    /// A video stream.
    Video,
    /// A subtitle stream.
    Subtitle,
    /// Any other classification, kept as reported.
    Other(String),
}

impl View for CodecType {
    type V = CodecKind;

    open spec fn view(&self) -> CodecKind {
        match self {
            CodecType::Audio => CodecKind::Audio,
            CodecType::Video => CodecKind::Video,
            CodecType::Subtitle => CodecKind::Subtitle,
            CodecType::Other(s) => CodecKind::Other(s@),
        }
    }
}

impl PartialEq for CodecType {
    fn eq(&self, other: &Self) -> (r: bool) {
        match (self, other) {
            (CodecType::Audio, CodecType::Audio) => true,
            (CodecType::Video, CodecType::Video) => true,
            (CodecType::Subtitle, CodecType::Subtitle) => true,
            (CodecType::Other(a), CodecType::Other(b)) => str_eq(a.as_str(), b.as_str()),
            _ => false,
        }
    }
}

impl vstd::std_specs::cmp::PartialEqSpecImpl for CodecType {
    open spec fn obeys_eq_spec() -> bool {
        true
    }

    open spec fn eq_spec(&self, other: &Self) -> bool {
        self@ == other@
    }
}

/// What classifying a probe string yields: the three known kinds by name,
/// anything else kept as it came.
pub open spec fn codec_of_str(s: Seq<char>) -> CodecKind {
    if s == "audio"@ {
        CodecKind::Audio
    } else if s == "video"@ {
        CodecKind::Video
    } else if s == "subtitle"@ {
        CodecKind::Subtitle
    } else {
        CodecKind::Other(s)
    }
}

impl CodecType {
    /// Classify the probe's `codec_type` string. Unknown strings round-trip
    /// unchanged; classification never fails.
    pub fn classify(s: &str) -> (r: CodecType)
        ensures
            r@ == codec_of_str(s@),
    {
        if str_eq(s, "audio") {
            CodecType::Audio
        } else if str_eq(s, "video") {
            CodecType::Video
        } else if str_eq(s, "subtitle") {
            CodecType::Subtitle
        } else {
            CodecType::Other(s.to_owned())
        }
    }
}

/// The content of a [`Stream`]: tag and disposition member lists abstracted
/// to maps, earlier entries winning over later ones of the same name.
pub struct StreamView {
    /// The stream's index within its container.
    pub index: int,
    /// The stream's classification.
    pub codec_type: CodecKind,
    /// The string tags, such as `"language"`.
    pub tags: Option<Map<Seq<char>, Seq<char>>>,
    /// The integer disposition flags, such as `"attached_pic"`.
    pub disposition: Option<Map<Seq<char>, u32>>,
}

/// An individual content stream within a media container.
#[derive(Clone, Debug)]
pub struct Stream {
    /// The stream's index within its container.
    pub index: usize,
    /// The stream's classification.
    pub codec_type: CodecType,
    /// The string tags, as name/value pairs.
    pub tags: Option<Vec<(String, String)>>,
    /// The integer disposition flags, as name/value pairs.
    pub disposition: Option<Vec<(String, u32)>>,
}

/// The map written by a name/string pair list, the first entry of a name
/// winning.
pub open spec fn string_pairs_map(s: Seq<(String, String)>) -> Map<Seq<char>, Seq<char>>
    decreases s.len(),
{
    if s.len() == 0 {
        Map::empty()
    } else {
        string_pairs_map(s.skip(1)).insert(s[0].0@, s[0].1@)
    }
}

/// The map written by a name/integer pair list, the first entry of a name
/// winning.
pub open spec fn u32_pairs_map(s: Seq<(String, u32)>) -> Map<Seq<char>, u32>
    decreases s.len(),
{
    if s.len() == 0 {
        Map::empty()
    } else {
        u32_pairs_map(s.skip(1)).insert(s[0].0@, s[0].1)
    }
}

/// A name is in the map written by a pair list exactly when some pair
/// carries it.
pub proof fn lemma_string_pairs_contains(s: Seq<(String, String)>, k: Seq<char>)
    ensures
        string_pairs_map(s).contains_key(k) <==> exists|i: int|
            0 <= i < s.len() && (#[trigger] s[i].0)@ == k,
    decreases s.len(),
{
    if s.len() > 0 {
        lemma_string_pairs_contains(s.skip(1), k);
        if s[0].0@ != k && string_pairs_map(s).contains_key(k) {
            let i = choose|i: int| 0 <= i < s.skip(1).len() && (#[trigger] s.skip(1)[i].0)@ == k;
            assert(s[i + 1].0@ == k);
        }
        if exists|i: int| 0 <= i < s.len() && (#[trigger] s[i].0)@ == k {
            let i = choose|i: int| 0 <= i < s.len() && (#[trigger] s[i].0)@ == k;
            if i > 0 {
                assert(s.skip(1)[i - 1].0@ == k);
            }
        }
    }
}

/// The map written by a pair list takes the value of the first pair of a
/// name.
pub proof fn lemma_string_pairs_first(s: Seq<(String, String)>, i: int)
    requires
        0 <= i < s.len(),
        forall|j: int| 0 <= j < i ==> (#[trigger] s[j].0)@ != s[i].0@,
    ensures
        string_pairs_map(s).contains_key(s[i].0@),
        string_pairs_map(s)[s[i].0@] == s[i].1@,
    decreases s.len(),
{
    lemma_string_pairs_contains(s, s[i].0@);
    if i > 0 {
        assert(forall|j: int|
            0 <= j < i - 1 ==> (#[trigger] s.skip(1)[j].0)@ == s[j + 1].0@);
        assert(s.skip(1)[i - 1] == s[i]);
        lemma_string_pairs_first(s.skip(1), i - 1);
    }
}

/// A name is in the map written by a pair list exactly when some pair
/// carries it.
pub proof fn lemma_u32_pairs_contains(s: Seq<(String, u32)>, k: Seq<char>)
    ensures
        u32_pairs_map(s).contains_key(k) <==> exists|i: int|
            0 <= i < s.len() && (#[trigger] s[i].0)@ == k,
    decreases s.len(),
{
    if s.len() > 0 {
        lemma_u32_pairs_contains(s.skip(1), k);
        if s[0].0@ != k && u32_pairs_map(s).contains_key(k) {
            let i = choose|i: int| 0 <= i < s.skip(1).len() && (#[trigger] s.skip(1)[i].0)@ == k;
            assert(s[i + 1].0@ == k);
        }
        if exists|i: int| 0 <= i < s.len() && (#[trigger] s[i].0)@ == k {
            let i = choose|i: int| 0 <= i < s.len() && (#[trigger] s[i].0)@ == k;
            if i > 0 {
                assert(s.skip(1)[i - 1].0@ == k);
            }
        }
    }
}

/// The map written by a pair list takes the value of the first pair of a
/// name.
pub proof fn lemma_u32_pairs_first(s: Seq<(String, u32)>, i: int)
    requires
        0 <= i < s.len(),
        forall|j: int| 0 <= j < i ==> (#[trigger] s[j].0)@ != s[i].0@,
    ensures
        u32_pairs_map(s).contains_key(s[i].0@),
        u32_pairs_map(s)[s[i].0@] == s[i].1,
    decreases s.len(),
{
    lemma_u32_pairs_contains(s, s[i].0@);
    if i > 0 {
        assert(forall|j: int| 0 <= j < i - 1 ==> (#[trigger] s.skip(1)[j].0)@ == s[j + 1].0@);
        assert(s.skip(1)[i - 1] == s[i]);
        lemma_u32_pairs_first(s.skip(1), i - 1);
    }
}

impl View for Stream {
    type V = StreamView;

    open spec fn view(&self) -> StreamView {
        StreamView {
            index: self.index as int,
            codec_type: self.codec_type@,
            tags: match self.tags {
                Some(v) => Some(string_pairs_map(v@)),
                None => None,
            },
            disposition: match self.disposition {
                Some(v) => Some(u32_pairs_map(v@)),
                None => None,
            },
        }
    }
}

/// What decoding a `tags`-style member yields: a string map when the value
/// is an object of strings, nothing when it is malformed.
pub open spec fn str_map_of_json(j: Json) -> Option<Map<Seq<char>, Seq<char>>> {
    if j matches Json::Obj(m) && (forall|k: Seq<char>|
        m.dom().contains(k) ==> (#[trigger] m[k]) is Str) {
        Some(Map::new(|k: Seq<char>| j->Obj_0.dom().contains(k), |k: Seq<char>| j->Obj_0[k]->Str_0))
    } else {
        None
    }
}

/// What decoding a `disposition`-style member yields: an integer map when
/// the value is an object of 32-bit unsigned integers.
pub open spec fn u32_map_of_json(j: Json) -> Option<Map<Seq<char>, u32>> {
    if j matches Json::Obj(m) && (forall|k: Seq<char>|
        m.dom().contains(k) ==> ((#[trigger] m[k]) matches Json::Int(i) && 0 <= i <= u32::MAX)) {
        Some(
            Map::new(
                |k: Seq<char>| j->Obj_0.dom().contains(k),
                |k: Seq<char>| (j->Obj_0[k]->Int_0) as u32,
            ),
        )
    } else {
        None
    }
}

/// The `index` member of a stream record: an integer that fits the
/// platform's index type.
pub open spec fn index_of_json(m: Map<Seq<char>, Json>) -> Option<int> {
    if m.contains_key("index"@) && (m["index"@] matches Json::Int(i) && 0 <= i <= usize::MAX) {
        Some(m["index"@]->Int_0)
    } else {
        None
    }
}

/// The `codec_type` member of a stream record: a string.
pub open spec fn codec_str_of_json(m: Map<Seq<char>, Json>) -> Option<Seq<char>> {
    if m.contains_key("codec_type"@) && m["codec_type"@] is Str {
        Some(m["codec_type"@]->Str_0)
    } else {
        None
    }
}

/// An optional object-of-strings member: absent or `null` is no map at all,
/// a well-formed object is a map, anything else is malformed.
pub open spec fn opt_str_map_of_json(m: Map<Seq<char>, Json>, name: Seq<char>) -> Option<
    Option<Map<Seq<char>, Seq<char>>>,
> {
    if !m.contains_key(name) || m[name] is Null {
        Some(None)
    } else {
        match str_map_of_json(m[name]) {
            Some(t) => Some(Some(t)),
            None => None,
        }
    }
}

/// An optional object-of-integers member, as
/// [`opt_str_map_of_json`] for integer values.
pub open spec fn opt_u32_map_of_json(m: Map<Seq<char>, Json>, name: Seq<char>) -> Option<
    Option<Map<Seq<char>, u32>>,
> {
    if !m.contains_key(name) || m[name] is Null {
        Some(None)
    } else {
        match u32_map_of_json(m[name]) {
            Some(t) => Some(Some(t)),
            None => None,
        }
    }
}

/// What decoding one stream record yields: the record's content when it is
/// an object with a well-formed `index`, `codec_type`, and optional `tags`
/// and `disposition`; nothing when it is malformed. Members other than
/// these four are ignored.
pub open spec fn stream_of_json(j: Json) -> Option<StreamView> {
    if j is Obj {
        let m = j->Obj_0;
        if index_of_json(m) is Some && codec_str_of_json(m) is Some && opt_str_map_of_json(
            m,
            "tags"@,
        ) is Some && opt_u32_map_of_json(m, "disposition"@) is Some {
            Some(
                StreamView {
                    index: index_of_json(m)->Some_0,
                    codec_type: codec_of_str(codec_str_of_json(m)->Some_0),
                    tags: opt_str_map_of_json(m, "tags"@)->Some_0,
                    disposition: opt_u32_map_of_json(m, "disposition"@)->Some_0,
                },
            )
        } else {
            None
        }
    } else {
        None
    }
}

/// The language a stream resolves to: its `"language"` tag, put through the
/// language-code resolver; no language when the tag is absent or does not
/// resolve.
pub open spec fn spec_language(s: StreamView) -> Option<Lang> {
    match s.tags {
        Some(m) => if m.contains_key("language"@) {
            spec_iso639(m["language"@])
        } else {
            None
        },
        None => None,
    }
}

/// Whether a stream is flagged as an attached picture: its disposition maps
/// `"attached_pic"` to exactly `1`.
pub open spec fn spec_is_attached_pic(s: StreamView) -> bool {
    match s.disposition {
        Some(m) => m.contains_key("attached_pic"@) && m["attached_pic"@] == 1u32,
        None => false,
    }
}

impl Stream {
    /// The language associated with this stream, resolved from its
    /// `"language"` tag; no language when the tag is absent or unresolvable.
    pub fn language(&self) -> (r: Option<Lang>)
        ensures
            r == spec_language(self@),
    {
        match &self.tags {
            None => None,
            Some(pairs) => {
                match lookup_string(pairs, "language") {
                    None => None,
                    Some(v) => Lang::iso639(v.as_str()),
                }
            },
        }
    }

    /// Whether this stream appears to be an attached picture (album art
    /// rather than a true video stream): its disposition carries
    /// `"attached_pic"` with value exactly `1`, and false otherwise,
    /// including when the flag or the whole disposition is absent.
    pub fn is_attached_pic(&self) -> (r: bool)
        ensures
            r == spec_is_attached_pic(self@),
    {
        match &self.disposition {
            None => false,
            Some(pairs) => {
                match lookup_u32(pairs, "attached_pic") {
                    None => false,
                    Some(v) => v == 1,
                }
            },
        }
    }
}

impl Stream {
    /// Decode one stream record from a parsed JSON value. Succeeds exactly
    /// on the records [`stream_of_json`] accepts, and yields their content.
    pub fn from_json(v: &serde_json::Value) -> (r: Result<Stream, MediaError>)
        ensures
            r is Ok <==> stream_of_json(json_model(*v)) is Some,
            r matches Ok(s) ==> Some(s@) == stream_of_json(json_model(*v)),
            r matches Err(e) ==> e is MetadataParseFailed,
    {
        let index: usize = match value_get(v, "index") {
            None => {
                return Err(record_error());
            },
            Some(x) => match value_as_u64(x) {
                None => {
                    return Err(record_error());
                },
                Some(n) => {
                    if n > usize::MAX as u64 {
                        return Err(record_error());
                    }
                    n as usize
                },
            },
        };
        let codec_type: CodecType = match value_get(v, "codec_type") {
            None => {
                return Err(record_error());
            },
            Some(x) => match value_as_str(x) {
                None => {
                    return Err(record_error());
                },
                Some(s) => CodecType::classify(s),
            },
        };
        let tags: Option<Vec<(String, String)>> = match value_get(v, "tags") {
            None => None,
            Some(x) => {
                if value_is_null(x) {
                    None
                } else {
                    match string_object_pairs(x) {
                        None => {
                            return Err(record_error());
                        },
                        Some(pairs) => Some(pairs),
                    }
                }
            },
        };
        let disposition: Option<Vec<(String, u32)>> = match value_get(v, "disposition") {
            None => None,
            Some(x) => {
                if value_is_null(x) {
                    None
                } else {
                    match u32_object_pairs(x) {
                        None => {
                            return Err(record_error());
                        },
                        Some(pairs) => Some(pairs),
                    }
                }
            },
        };
        Ok(Stream { index, codec_type, tags, disposition })
    }
}

impl Stream {
    /// Decode one stream record from JSON text: the text parsed as JSON,
    /// then decoded as by [`Stream::from_json`].
    pub fn parse_record(text: &str) -> (r: Result<Stream, MediaError>)
        ensures
            r is Ok <==> (crate::json::json_of_text(text@) matches Some(j) && stream_of_json(j)
                is Some),
            r matches Ok(s) ==> (crate::json::json_of_text(text@) matches Some(j) && Some(s@)
                == stream_of_json(j)),
            r matches Err(e) ==> e is MetadataParseFailed,
    {
        match crate::json::json_from_str(text) {
            None => Err(record_error()),
            Some(v) => Stream::from_json(&v),
        }
    }
}

/// The member list of an object of strings; nothing when the value is not
/// such an object.
fn string_object_pairs(v: &serde_json::Value) -> (r: Option<Vec<(String, String)>>)
    ensures
        r is Some <==> str_map_of_json(json_model(*v)) is Some,
        r matches Some(pairs) ==> Some(string_pairs_map(pairs@)) == str_map_of_json(
            json_model(*v),
        ),
{
    let es = match value_object_entries(v) {
        None => {
            return None;
        },
        Some(es) => es,
    };
    let ghost m = json_model(*v)->Obj_0;
    let n = es.len();
    let mut out: Vec<(String, String)> = Vec::new();
    let mut i: usize = 0;
    while i < n
        invariant
            i <= n == es@.len(),
            out@.len() == i,
            json_model(*v) is Obj,
            m == json_model(*v)->Obj_0,
            forall|a: int, b: int| 0 <= a < b < es@.len() ==> es@[a].0@ != es@[b].0@,
            forall|a: int|
                0 <= a < es@.len() ==> m.contains_pair(#[trigger] es@[a].0@, json_model(es@[a].1)),
            forall|k: Seq<char>|
                m.dom().contains(k) ==> exists|a: int| 0 <= a < es@.len() && (#[trigger] es@[a].0@)
                    == k,
            forall|a: int| 0 <= a < i ==> (#[trigger] out@[a].0)@ == es@[a].0@,
            forall|a: int| 0 <= a < i ==> (#[trigger] m[es@[a].0@]) is Str,
            forall|a: int| 0 <= a < i ==> (#[trigger] out@[a].1)@ == m[es@[a].0@]->Str_0,
        decreases n - i,
    {
        let val = match value_as_str(&es[i].1) {
            None => {
                proof {
                    assert(m.contains_pair(es@[i as int].0@, json_model(es@[i as int].1)));
                    assert(m.dom().contains(es@[i as int].0@));
                    assert(!(m[es@[i as int].0@] is Str));
                }
                return None;
            },
            Some(s) => s.to_owned(),
        };
        let name = es[i].0.clone();
        out.push((name, val));
        i = i + 1;
    }
    proof {
        assert forall|k: Seq<char>| m.dom().contains(k) implies (#[trigger] m[k]) is Str by {
            let a = choose|a: int| 0 <= a < es@.len() && (#[trigger] es@[a].0@) == k;
            assert(m[es@[a].0@] is Str);
        }
        let target = str_map_of_json(json_model(*v))->Some_0;
        assert forall|k: Seq<char>|
            string_pairs_map(out@).contains_key(k) <==> target.dom().contains(k) by {
            lemma_string_pairs_contains(out@, k);
            if target.dom().contains(k) {
                let a = choose|a: int| 0 <= a < es@.len() && (#[trigger] es@[a].0@) == k;
                assert(out@[a].0@ == k);
            }
            if string_pairs_map(out@).contains_key(k) {
                let a = choose|a: int| 0 <= a < out@.len() && (#[trigger] out@[a].0)@ == k;
                assert(m.contains_pair(es@[a].0@, json_model(es@[a].1)));
            }
        }
        assert forall|k: Seq<char>| target.dom().contains(k) implies string_pairs_map(out@)[k]
            == target[k] by {
            lemma_string_pairs_contains(out@, k);
            let a = choose|a: int| 0 <= a < out@.len() && (#[trigger] out@[a].0)@ == k;
            assert forall|b: int| 0 <= b < a implies (#[trigger] out@[b].0)@ != out@[a].0@ by {
                assert(es@[b].0@ != es@[a].0@);
            }
            lemma_string_pairs_first(out@, a);
            assert(m.contains_pair(es@[a].0@, json_model(es@[a].1)));
        }
        assert(string_pairs_map(out@) =~= target);
    }
    Some(out)
}

/// The member list of an object of 32-bit unsigned integers; nothing when
/// the value is not such an object.
fn u32_object_pairs(v: &serde_json::Value) -> (r: Option<Vec<(String, u32)>>)
    ensures
        r is Some <==> u32_map_of_json(json_model(*v)) is Some,
        r matches Some(pairs) ==> Some(u32_pairs_map(pairs@)) == u32_map_of_json(json_model(*v)),
{
    let es = match value_object_entries(v) {
        None => {
            return None;
        },
        Some(es) => es,
    };
    let ghost m = json_model(*v)->Obj_0;
    let n = es.len();
    let mut out: Vec<(String, u32)> = Vec::new();
    let mut i: usize = 0;
    while i < n
        invariant
            i <= n == es@.len(),
            out@.len() == i,
            json_model(*v) is Obj,
            m == json_model(*v)->Obj_0,
            forall|a: int, b: int| 0 <= a < b < es@.len() ==> es@[a].0@ != es@[b].0@,
            forall|a: int|
                0 <= a < es@.len() ==> m.contains_pair(#[trigger] es@[a].0@, json_model(es@[a].1)),
            forall|k: Seq<char>|
                m.dom().contains(k) ==> exists|a: int| 0 <= a < es@.len() && (#[trigger] es@[a].0@)
                    == k,
            forall|a: int| 0 <= a < i ==> (#[trigger] out@[a].0)@ == es@[a].0@,
            forall|a: int|
                0 <= a < i ==> ((#[trigger] m[es@[a].0@]) matches Json::Int(x) && 0 <= x
                    <= u32::MAX),
            forall|a: int| 0 <= a < i ==> (#[trigger] out@[a].1) as int == m[es@[a].0@]->Int_0,
        decreases n - i,
    {
        let val: u32 = match value_as_u64(&es[i].1) {
            None => {
                proof {
                    assert(m.contains_pair(es@[i as int].0@, json_model(es@[i as int].1)));
                    assert(m.dom().contains(es@[i as int].0@));
                }
                return None;
            },
            Some(x) => {
                if x > u32::MAX as u64 {
                    proof {
                        assert(m.contains_pair(es@[i as int].0@, json_model(es@[i as int].1)));
                        assert(m.dom().contains(es@[i as int].0@));
                    }
                    return None;
                }
                x as u32
            },
        };
        let name = es[i].0.clone();
        out.push((name, val));
        i = i + 1;
    }
    proof {
        assert forall|k: Seq<char>| m.dom().contains(k) implies ((#[trigger] m[k]) matches
            Json::Int(x) && 0 <= x <= u32::MAX) by {
            let a = choose|a: int| 0 <= a < es@.len() && (#[trigger] es@[a].0@) == k;
            assert(m[es@[a].0@] matches Json::Int(x) && 0 <= x <= u32::MAX);
        }
        let target = u32_map_of_json(json_model(*v))->Some_0;
        assert forall|k: Seq<char>|
            u32_pairs_map(out@).contains_key(k) <==> target.dom().contains(k) by {
            lemma_u32_pairs_contains(out@, k);
            if target.dom().contains(k) {
                let a = choose|a: int| 0 <= a < es@.len() && (#[trigger] es@[a].0@) == k;
                assert(out@[a].0@ == k);
            }
            if u32_pairs_map(out@).contains_key(k) {
                let a = choose|a: int| 0 <= a < out@.len() && (#[trigger] out@[a].0)@ == k;
                assert(m.contains_pair(es@[a].0@, json_model(es@[a].1)));
            }
        }
        assert forall|k: Seq<char>| target.dom().contains(k) implies u32_pairs_map(out@)[k]
            == target[k] by {
            lemma_u32_pairs_contains(out@, k);
            let a = choose|a: int| 0 <= a < out@.len() && (#[trigger] out@[a].0)@ == k;
            assert forall|b: int| 0 <= b < a implies (#[trigger] out@[b].0)@ != out@[a].0@ by {
                assert(es@[b].0@ != es@[a].0@);
            }
            lemma_u32_pairs_first(out@, a);
            assert(m.contains_pair(es@[a].0@, json_model(es@[a].1)));
        }
        assert(u32_pairs_map(out@) =~= target);
    }
    Some(out)
}

/// The failure for a malformed stream record.
fn record_error() -> (r: MediaError)
    ensures
        r is MetadataParseFailed,
{
    MediaError::MetadataParseFailed { detail: "malformed stream record".to_owned() }
}

/// The first value under a name in a string pair list.
fn lookup_string(pairs: &Vec<(String, String)>, key: &str) -> (r: Option<String>)
    ensures
        r is Some <==> string_pairs_map(pairs@).contains_key(key@),
        r matches Some(v) ==> string_pairs_map(pairs@).contains_key(key@) && v@ == string_pairs_map(
            pairs@,
        )[key@],
{
    let n = pairs.len();
    let mut i: usize = 0;
    while i < n
        invariant
            i <= n == pairs@.len(),
            forall|j: int| 0 <= j < i ==> (#[trigger] pairs@[j].0)@ != key@,
        decreases n - i,
    {
        if str_eq(pairs[i].0.as_str(), key) {
            proof {
                lemma_string_pairs_first(pairs@, i as int);
            }
            return Some(pairs[i].1.clone());
        }
        i = i + 1;
    }
    proof {
        lemma_string_pairs_contains(pairs@, key@);
    }
    None
}

/// The first value under a name in an integer pair list.
fn lookup_u32(pairs: &Vec<(String, u32)>, key: &str) -> (r: Option<u32>)
    ensures
        r is Some <==> u32_pairs_map(pairs@).contains_key(key@),
        r matches Some(v) ==> u32_pairs_map(pairs@).contains_key(key@) && v == u32_pairs_map(
            pairs@,
        )[key@],
{
    let n = pairs.len();
    let mut i: usize = 0;
    while i < n
        invariant
            i <= n == pairs@.len(),
            forall|j: int| 0 <= j < i ==> (#[trigger] pairs@[j].0)@ != key@,
        decreases n - i,
    {
        if str_eq(pairs[i].0.as_str(), key) {
            proof {
                lemma_u32_pairs_first(pairs@, i as int);
            }
            return Some(pairs[i].1);
        }
        i = i + 1;
    }
    proof {
        lemma_u32_pairs_contains(pairs@, key@);
    }
    None
}

} // verus!
