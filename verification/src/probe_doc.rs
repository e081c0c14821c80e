//! The JSON documents that the probing tools print (`yt-dlp -J` and
//! `ffprobe -show_format -show_streams`), held as plain values, and what the
//! library reads from them: the description of a local file and of a URL.
//! Measured values that are floating point (durations, frame rates, bit
//! rates in kbps) are handed on as the text the document holds.
use vstd::prelude::*;

use crate::config::{host_of, spec_host_of};
use crate::exec::opt_view;
use crate::probe::{container_label, has_video, is_playlist, site_of, spec_container_label, spec_has_video,
    spec_is_playlist};
use crate::text::{chars_eq, chars_of, owned, parse_u64, parse_u64_exec, str_is};

verus! {

// ---------------------------------------------------------------------------
// Fields of a JSON object

/// One field of a JSON object, as the document holds it.
#[derive(Debug, Clone)]
pub enum JsonField {
    /// The key is missing (or its parent is not an object).
    Absent,
    Null,
    Bool(bool),
    /// A number: its value when it is a non-negative integer that fits in
    /// 64 bits, and its text.
    Number { unsigned: Option<u64>, text: String },
    Text(String),
    /// An array or an object.
    Nested,
}

/// The text of a string field (what `as_str` gives).
pub open spec fn field_str(f: JsonField) -> Option<Seq<char>> {
    match f {
        JsonField::Text(s) => Some(s@),
        _ => None,
    }
}

/// The value of a non-negative integer field (what `as_u64` gives).
pub open spec fn field_u64(f: JsonField) -> Option<u64> {
    match f {
        JsonField::Number { unsigned, .. } => unsigned,
        _ => None,
    }
}

/// An integer cut to 32 bits, as `as u32` does.
pub open spec fn u32_of(o: Option<u64>) -> Option<u32> {
    match o {
        Some(h) => Some(h as u32),
        None => None,
    }
}

/// What `str::parse::<u64>` gives on a text that may be missing.
pub open spec fn opt_parse_u64(o: Option<Seq<char>>) -> Option<u64> {
    match o {
        Some(s) => parse_u64(s),
        None => None,
    }
}

/// What `str::parse::<u32>` gives on a text that may be missing.
pub open spec fn opt_parse_u32(o: Option<Seq<char>>) -> Option<u32> {
    match opt_parse_u64(o) {
        Some(n) => if n <= u32::MAX {
            Some(n as u32)
        } else {
            None
        },
        None => None,
    }
}

impl JsonField {
    /// The text of a string field.
    pub fn as_text(&self) -> (r: Option<String>)
        ensures
            opt_view(r) == field_str(*self),
    {
        match self {
            JsonField::Text(s) => Some(owned(s.as_str())),
            _ => None,
        }
    }

    /// The value of a non-negative integer field.
    pub fn as_unsigned(&self) -> (r: Option<u64>)
        ensures
            r == field_u64(*self),
    {
        match self {
            JsonField::Number { unsigned, .. } => *unsigned,
            _ => None,
        }
    }
}

fn cut_u32(o: Option<u64>) -> (r: Option<u32>)
    ensures
        r == u32_of(o),
{
    match o {
        Some(h) => Some(h as u32),
        None => None,
    }
}

fn parse_text_u64(o: &Option<String>) -> (r: Option<u64>)
    ensures
        r == opt_parse_u64(opt_view(*o)),
{
    match o {
        Some(s) => parse_u64_exec(&chars_of(s.as_str())),
        None => None,
    }
}

fn parse_text_u32(o: &Option<String>) -> (r: Option<u32>)
    ensures
        r == opt_parse_u32(opt_view(*o)),
{
    match parse_text_u64(o) {
        Some(n) => if n <= 4294967295u64 {
            Some(n as u32)
        } else {
            None
        },
        None => None,
    }
}

fn text_is(f: &JsonField, lit: &str) -> (r: bool)
    ensures
        r == (field_str(*f) == Some(lit@)),
{
    match f {
        JsonField::Text(s) => str_is(s.as_str(), lit),
        _ => false,
    }
}

// ---------------------------------------------------------------------------
// ffprobe

/// The `format` object of an ffprobe document.
#[derive(Debug, Clone)]
pub struct FfprobeFormat {
    pub format_name: JsonField,
    pub duration: JsonField,
    pub size: JsonField,
}

/// One element of an ffprobe document's `streams` (`attached_pic` is the
/// field of its `disposition` object).
#[derive(Debug, Clone)]
pub struct FfprobeStream {
    pub codec_type: JsonField,
    pub codec_name: JsonField,
    pub height: JsonField,
    pub avg_frame_rate: JsonField,
    pub bit_rate: JsonField,
    pub extradata: JsonField,
    pub attached_pic: JsonField,
    pub sample_rate: JsonField,
}

/// An ffprobe document: its `format` when that is an object, and its
/// `streams` (none when that is not an array).
#[derive(Debug, Clone)]
pub struct FfprobeDoc {
    pub format: Option<FfprobeFormat>,
    pub streams: Vec<FfprobeStream>,
}

/// What an ffprobe document says of a local file. The frame rate is the
/// `num/den` text and the bit rates are the texts in bits per second.
#[derive(Debug, Clone)]
pub struct ProbedFile {
    pub container: Option<String>,
    pub duration_text: Option<String>,
    pub size_bytes: Option<u64>,
    pub has_cover: bool,
    pub height: Option<u32>,
    pub vcodec: Option<String>,
    pub frame_rate: Option<String>,
    pub vbitrate_text: Option<String>,
    pub extradata: Option<String>,
    pub acodec: Option<String>,
    pub abitrate_text: Option<String>,
    pub sample_rate: Option<u32>,
    pub audio_tracks: Option<u32>,
}

pub open spec fn is_video(s: FfprobeStream) -> bool {
    field_str(s.codec_type) == Some("video"@)
}

pub open spec fn is_audio(s: FfprobeStream) -> bool {
    field_str(s.codec_type) == Some("audio"@)
}

/// A video stream that is an attached picture (`attached_pic` is 1 or "1").
pub open spec fn is_cover(s: FfprobeStream) -> bool {
    is_video(s) && (field_u64(s.attached_pic) == Some(1u64) || field_str(s.attached_pic) == Some("1"@))
}

/// Position of the last video stream.
pub open spec fn last_video(ss: Seq<FfprobeStream>) -> Option<int>
    decreases ss.len(),
{
    if ss.len() == 0 {
        None
    } else if is_video(ss.last()) {
        Some(ss.len() - 1)
    } else {
        last_video(ss.drop_last())
    }
}

/// Position of the last audio stream.
pub open spec fn last_audio(ss: Seq<FfprobeStream>) -> Option<int>
    decreases ss.len(),
{
    if ss.len() == 0 {
        None
    } else if is_audio(ss.last()) {
        Some(ss.len() - 1)
    } else {
        last_audio(ss.drop_last())
    }
}

/// Position of the first audio stream that names its codec.
pub open spec fn first_named_audio(ss: Seq<FfprobeStream>) -> Option<int>
    decreases ss.len(),
{
    if ss.len() == 0 {
        None
    } else {
        match first_named_audio(ss.drop_last()) {
            Some(k) => Some(k),
            None => if is_audio(ss.last()) && field_str(ss.last().codec_name) is Some {
                Some(ss.len() - 1)
            } else {
                None
            },
        }
    }
}

/// The audio stream whose codec, bit rate and sample rate describe the
/// file: the first that names its codec, else the last audio stream.
pub open spec fn audio_source(ss: Seq<FfprobeStream>) -> Option<int> {
    match first_named_audio(ss) {
        Some(k) => Some(k),
        None => last_audio(ss),
    }
}

/// Number of audio streams.
pub open spec fn audio_count(ss: Seq<FfprobeStream>) -> nat
    decreases ss.len(),
{
    if ss.len() == 0 {
        0
    } else {
        audio_count(ss.drop_last()) + if is_audio(ss.last()) {
            1nat
        } else {
            0nat
        }
    }
}

/// Some video stream is an attached picture.
pub open spec fn has_cover_stream(ss: Seq<FfprobeStream>) -> bool {
    exists|i: int| 0 <= i < ss.len() && is_cover(#[trigger] ss[i])
}

/// A string field of the stream at a position, if there is one.
pub open spec fn stream_str(ss: Seq<FfprobeStream>, at: Option<int>, f: spec_fn(FfprobeStream) -> JsonField) -> Option<Seq<char>> {
    match at {
        Some(i) => field_str(f(ss[i])),
        None => None,
    }
}

pub open spec fn oi(o: Option<usize>) -> Option<int> {
    match o {
        Some(i) => Some(i as int),
        None => None,
    }
}

proof fn lemma_prefix_step(ss: Seq<FfprobeStream>, i: int)
    requires
        0 <= i < ss.len(),
    ensures
        ss.take(i + 1).drop_last() == ss.take(i),
        ss.take(i + 1).last() == ss[i],
        has_cover_stream(ss.take(i + 1)) == (has_cover_stream(ss.take(i)) || is_cover(ss[i])),
{
    assert(ss.take(i + 1).drop_last() =~= ss.take(i));
    let t = ss.take(i + 1);
    if has_cover_stream(t) {
        let k = choose|k: int| 0 <= k < t.len() && is_cover(#[trigger] t[k]);
        if k < i {
            assert(ss.take(i)[k] == t[k]);
        }
    }
    if has_cover_stream(ss.take(i)) {
        let k = choose|k: int| 0 <= k < i && is_cover(#[trigger] ss.take(i)[k]);
        assert(t[k] == ss.take(i)[k]);
    }
    if is_cover(ss[i]) {
        assert(t[i] == ss[i]);
    }
}

/// Reads an ffprobe document: the container label, duration text and size
/// from `format`; height, codec, frame rate, bit rate and extradata from the
/// last video stream; a cover when some video stream is an attached
/// picture; codec, bit rate and sample rate from the first audio stream
/// that names its codec (else the last audio stream); and the number of
/// audio streams, none when there is none.
pub fn ffprobe_meta(doc: &FfprobeDoc) -> (r: ProbedFile)
    requires
        doc.streams@.len() <= u32::MAX,
    ensures
        opt_view(r.container) == (match doc.format {
            Some(f) => match field_str(f.format_name) {
                Some(n) => Some(spec_container_label(n)),
                None => None,
            },
            None => None,
        }),
        opt_view(r.duration_text) == (match doc.format {
            Some(f) => field_str(f.duration),
            None => None,
        }),
        r.size_bytes == (match doc.format {
            Some(f) => opt_parse_u64(field_str(f.size)),
            None => None,
        }),
        r.has_cover == has_cover_stream(doc.streams@),
        r.height == (match last_video(doc.streams@) {
            Some(i) => u32_of(field_u64(doc.streams@[i].height)),
            None => None,
        }),
        opt_view(r.vcodec) == stream_str(doc.streams@, last_video(doc.streams@), |s: FfprobeStream| s.codec_name),
        opt_view(r.frame_rate) == stream_str(doc.streams@, last_video(doc.streams@), |s: FfprobeStream| s.avg_frame_rate),
        opt_view(r.vbitrate_text) == stream_str(doc.streams@, last_video(doc.streams@), |s: FfprobeStream| s.bit_rate),
        opt_view(r.extradata) == stream_str(doc.streams@, last_video(doc.streams@), |s: FfprobeStream| s.extradata),
        opt_view(r.acodec) == stream_str(doc.streams@, audio_source(doc.streams@), |s: FfprobeStream| s.codec_name),
        opt_view(r.abitrate_text) == stream_str(doc.streams@, audio_source(doc.streams@), |s: FfprobeStream| s.bit_rate),
        r.sample_rate == opt_parse_u32(stream_str(doc.streams@, audio_source(doc.streams@), |s: FfprobeStream| s.sample_rate)),
        r.audio_tracks == (if audio_count(doc.streams@) > 0 {
            Some(audio_count(doc.streams@) as u32)
        } else {
            None
        }),
{
    let (container, duration_text, size_bytes) = match &doc.format {
        Some(f) => {
            let c = match &f.format_name {
                JsonField::Text(n) => Some(container_label(n.as_str())),
                _ => None,
            };
            let size = f.size.as_text();
            (c, f.duration.as_text(), parse_text_u64(&size))
        },
        None => (None, None, None),
    };
    let ghost ss = doc.streams@;
    let n = doc.streams.len();
    let mut video: Option<usize> = None;
    let mut named: Option<usize> = None;
    let mut last_aud: Option<usize> = None;
    let mut count: u32 = 0;
    let mut cover = false;
    for i in 0..n
        invariant
            ss == doc.streams@,
            n == ss.len(),
            n <= u32::MAX,
            oi(video) == last_video(ss.take(i as int)),
            oi(named) == first_named_audio(ss.take(i as int)),
            oi(last_aud) == last_audio(ss.take(i as int)),
            count as nat == audio_count(ss.take(i as int)),
            count <= i,
            cover == has_cover_stream(ss.take(i as int)),
            video matches Some(k) ==> k < i,
            named matches Some(k) ==> k < i,
            last_aud matches Some(k) ==> k < i,
    {
        let s = &doc.streams[i];
        proof {
            lemma_prefix_step(ss, i as int);
        }
        let v = text_is(&s.codec_type, "video");
        let a = text_is(&s.codec_type, "audio");
        proof {
            reveal_strlit("video");
            reveal_strlit("audio");
            reveal_strlit("1");
        }
        if v {
            video = Some(i);
            let pic = s.attached_pic.as_unsigned();
            let one = match pic {
                Some(p) => p == 1,
                None => false,
            } || text_is(&s.attached_pic, "1");
            if one {
                cover = true;
            }
        }
        if a {
            count = count + 1;
            last_aud = Some(i);
            if named.is_none() {
                if s.codec_name.as_text().is_some() {
                    named = Some(i);
                }
            }
        }
    }
    proof {
        assert(ss.take(n as int) =~= ss);
    }
    let (height, vcodec, frame_rate, vbitrate_text, extradata) = match video {
        Some(k) => {
            let s = &doc.streams[k];
            (
                cut_u32(s.height.as_unsigned()),
                s.codec_name.as_text(),
                s.avg_frame_rate.as_text(),
                s.bit_rate.as_text(),
                s.extradata.as_text(),
            )
        },
        None => (None, None, None, None, None),
    };
    let source = match named {
        Some(k) => Some(k),
        None => last_aud,
    };
    let (acodec, abitrate_text, sample_rate) = match source {
        Some(k) => {
            let s = &doc.streams[k];
            let rate = s.sample_rate.as_text();
            (s.codec_name.as_text(), s.bit_rate.as_text(), parse_text_u32(&rate))
        },
        None => (None, None, None),
    };
    let audio_tracks = if count > 0 {
        Some(count)
    } else {
        None
    };
    ProbedFile {
        container,
        duration_text,
        size_bytes,
        has_cover: cover,
        height,
        vcodec,
        frame_rate,
        vbitrate_text,
        extradata,
        acodec,
        abitrate_text,
        sample_rate,
        audio_tracks,
    }
}

// ---------------------------------------------------------------------------
// yt-dlp

/// One element of a yt-dlp document's `formats`.
#[derive(Debug, Clone)]
pub struct YtdlpFormat {
    pub format_id: JsonField,
    pub ext: JsonField,
    pub height: JsonField,
    pub vcodec: JsonField,
    pub acodec: JsonField,
    pub fps: JsonField,
    pub filesize: JsonField,
    pub filesize_approx: JsonField,
    pub tbr: JsonField,
    pub format_note: JsonField,
}

/// A yt-dlp document (`_type` is held as `kind`); `formats` is empty when
/// the document has no array there.
#[derive(Debug, Clone)]
pub struct YtdlpDoc {
    pub title: JsonField,
    pub duration: JsonField,
    pub thumbnail: JsonField,
    pub kind: JsonField,
    pub playlist_count: JsonField,
    pub webpage_url: JsonField,
    pub extractor: JsonField,
    pub formats: Vec<YtdlpFormat>,
}

/// A format offered for download: `index` is its position among the
/// document's formats (its frame rate and bit rate are read there).
#[derive(Debug, Clone)]
pub struct ProbedFormat {
    pub index: usize,
    pub format_id: String,
    pub height: Option<u32>,
    pub ext: Option<String>,
    pub vcodec: Option<String>,
    pub acodec: Option<String>,
    pub filesize_bytes: Option<u64>,
    pub note: Option<String>,
    pub audio_only: bool,
}

/// What a yt-dlp document says of a URL.
#[derive(Debug, Clone)]
pub struct ProbedUrl {
    pub title: Option<String>,
    pub thumbnail_url: Option<String>,
    pub has_cover: bool,
    pub is_playlist: bool,
    pub playlist_count: Option<u32>,
    pub host: Option<String>,
    pub site: Option<String>,
    pub formats: Vec<ProbedFormat>,
    pub max_height: Option<u32>,
}

/// The id of a format; empty when it has none.
pub open spec fn format_id_of(f: YtdlpFormat) -> Seq<char> {
    match field_str(f.format_id) {
        Some(s) => s,
        None => Seq::empty(),
    }
}

/// Format `i` is listed: its id is not empty and no earlier format has it.
pub open spec fn first_of_id(fs: Seq<YtdlpFormat>, i: int) -> bool {
    format_id_of(fs[i]).len() > 0 && forall|j: int| 0 <= j < i ==> format_id_of(#[trigger] fs[j]) != format_id_of(fs[i])
}

/// Positions of the listed formats among the first `n`, in order.
pub open spec fn listed_upto(fs: Seq<YtdlpFormat>, n: nat) -> Seq<int>
    decreases n,
{
    if n == 0 {
        seq![]
    } else {
        listed_upto(fs, (n - 1) as nat) + if first_of_id(fs, n - 1) {
            seq![n - 1]
        } else {
            seq![]
        }
    }
}

/// Positions of the listed formats, in order.
pub open spec fn listed_formats(fs: Seq<YtdlpFormat>) -> Seq<int> {
    listed_upto(fs, fs.len())
}

/// The size of a format: `filesize` when the key is there, else
/// `filesize_approx`.
pub open spec fn spec_filesize(f: YtdlpFormat) -> Option<u64> {
    match f.filesize {
        JsonField::Absent => field_u64(f.filesize_approx),
        other => field_u64(other),
    }
}

/// `p` describes format `f`, found at position `i`.
pub open spec fn format_matches(p: ProbedFormat, f: YtdlpFormat, i: int) -> bool {
    &&& p.index == i
    &&& p.format_id@ == format_id_of(f)
    &&& p.height == u32_of(field_u64(f.height))
    &&& opt_view(p.ext) == field_str(f.ext)
    &&& opt_view(p.vcodec) == field_str(f.vcodec)
    &&& opt_view(p.acodec) == field_str(f.acodec)
    &&& p.filesize_bytes == spec_filesize(f)
    &&& opt_view(p.note) == field_str(f.format_note)
    &&& p.audio_only == (!spec_has_video(field_str(f.vcodec)) && field_str(f.acodec) is Some)
}

/// The greatest height among formats that are not audio only (a missing
/// height counts as 0); none when every format is audio only.
pub open spec fn max_video_height(ps: Seq<ProbedFormat>) -> Option<u32>
    decreases ps.len(),
{
    if ps.len() == 0 {
        None
    } else {
        let prev = max_video_height(ps.drop_last());
        let p = ps.last();
        if p.audio_only {
            prev
        } else {
            let h: u32 = match p.height {
                Some(h) => h,
                None => 0,
            };
            match prev {
                Some(m) => Some(if m >= h { m } else { h }),
                None => Some(h),
            }
        }
    }
}

proof fn lemma_listed_bound(fs: Seq<YtdlpFormat>, n: nat)
    ensures
        forall|k: int| 0 <= k < listed_upto(fs, n).len() ==> 0 <= #[trigger] listed_upto(fs, n)[k] < n,
    decreases n,
{
    if n > 0 {
        lemma_listed_bound(fs, (n - 1) as nat);
        let before = listed_upto(fs, (n - 1) as nat);
        let after = listed_upto(fs, n);
        assert forall|k: int| 0 <= k < after.len() implies 0 <= #[trigger] after[k] < n by {
            if k < before.len() {
                assert(after[k] == before[k]);
            }
        }
    }
}

fn probed_format(f: &YtdlpFormat, i: usize, id: String) -> (p: ProbedFormat)
    requires
        id@ == format_id_of(*f),
    ensures
        format_matches(p, *f, i as int),
{
    let vcodec = f.vcodec.as_text();
    let acodec = f.acodec.as_text();
    let audio_only = !has_video(&vcodec) && acodec.is_some();
    let filesize_bytes = match &f.filesize {
        JsonField::Absent => f.filesize_approx.as_unsigned(),
        other => other.as_unsigned(),
    };
    ProbedFormat {
        index: i,
        format_id: id,
        height: cut_u32(f.height.as_unsigned()),
        ext: f.ext.as_text(),
        vcodec,
        acodec,
        filesize_bytes,
        note: f.format_note.as_text(),
        audio_only,
    }
}

/// The height of a format, a missing one counted as 0.
pub open spec fn height_or_zero(p: ProbedFormat) -> u32 {
    match p.height {
        Some(h) => h,
        None => 0,
    }
}

/// The greatest height is at least the height of every format that is not
/// audio only and is the height of one of them; there is none only when
/// every format is audio only.
pub proof fn law_max_video_height(ps: Seq<ProbedFormat>)
    ensures
        forall|k: int|
            0 <= k < ps.len() && !(#[trigger] ps[k]).audio_only ==> (max_video_height(ps) matches Some(m)
                && height_or_zero(ps[k]) <= m),
        max_video_height(ps) matches Some(m) ==> exists|k: int|
            0 <= k < ps.len() && !(#[trigger] ps[k]).audio_only && height_or_zero(ps[k]) == m,
        max_video_height(ps) is None ==> forall|k: int| 0 <= k < ps.len() ==> (#[trigger] ps[k]).audio_only,
    decreases ps.len(),
{
    if ps.len() > 0 {
        let pre = ps.drop_last();
        law_max_video_height(pre);
        let n = ps.len() - 1;
        assert forall|k: int| 0 <= k < n implies ps[k] == pre[k] by {}
        assert(ps.last() == ps[n]);
        match (max_video_height(ps), max_video_height(pre)) {
            (Some(m), Some(mp)) => {
                if m == mp {
                    let k = choose|k: int|
                        0 <= k < pre.len() && !(#[trigger] pre[k]).audio_only && height_or_zero(pre[k]) == mp;
                    assert(ps[k] == pre[k]);
                }
            },
            _ => {},
        }
    }
}

fn max_height_of(ps: &Vec<ProbedFormat>) -> (r: Option<u32>)
    ensures
        r == max_video_height(ps@),
{
    let mut m: Option<u32> = None;
    for k in 0..ps.len()
        invariant
            m == max_video_height(ps@.take(k as int)),
    {
        proof {
            assert(ps@.take(k + 1).drop_last() =~= ps@.take(k as int));
        }
        let p = &ps[k];
        if !p.audio_only {
            let h: u32 = match p.height {
                Some(h) => h,
                None => 0,
            };
            m = match m {
                Some(x) => Some(if x >= h { x } else { h }),
                None => Some(h),
            };
        }
    }
    proof {
        assert(ps@.take(ps@.len() as int) =~= ps@);
    }
    m
}

/// Reads a yt-dlp document: title, thumbnail (a cover when there is one),
/// whether it is a playlist and its count (cut to 32 bits), the host of
/// the page URL (none when it is empty), the site (the extractor, none when
/// empty), the formats whose id is not empty with only the first format of
/// each id kept, and the greatest height among those not audio only.
pub fn ytdlp_probe(doc: &YtdlpDoc) -> (r: ProbedUrl)
    ensures
        opt_view(r.title) == field_str(doc.title),
        opt_view(r.thumbnail_url) == field_str(doc.thumbnail),
        r.has_cover == field_str(doc.thumbnail) is Some,
        r.is_playlist == spec_is_playlist(field_str(doc.kind), field_u64(doc.playlist_count)),
        r.playlist_count == u32_of(field_u64(doc.playlist_count)),
        opt_view(r.host) == (match field_str(doc.webpage_url) {
            Some(u) => if u.len() > 0 {
                Some(spec_host_of(u))
            } else {
                None
            },
            None => None,
        }),
        opt_view(r.site) == (match field_str(doc.extractor) {
            Some(e) => if e.len() > 0 {
                Some(e)
            } else {
                None
            },
            None => None,
        }),
        r.formats@.len() == listed_formats(doc.formats@).len(),
        forall|k: int|
            0 <= k < r.formats@.len() ==> format_matches(
                #[trigger] r.formats@[k],
                doc.formats@[listed_formats(doc.formats@)[k]],
                listed_formats(doc.formats@)[k],
            ),
        r.max_height == max_video_height(r.formats@),
{
    let title = doc.title.as_text();
    let thumbnail_url = doc.thumbnail.as_text();
    let has_cover = thumbnail_url.is_some();
    let kind = doc.kind.as_text();
    let count = doc.playlist_count.as_unsigned();
    let playlist = is_playlist(&kind, count);
    let host = match &doc.webpage_url {
        JsonField::Text(u) => if u.unicode_len() > 0 {
            host_of(u.as_str())
        } else {
            None
        },
        _ => None,
    };
    let site = match &doc.extractor {
        JsonField::Text(e) => site_of(e.as_str()),
        _ => None,
    };
    let ghost fs = doc.formats@;
    let mut ids: Vec<Vec<char>> = Vec::new();
    let mut out: Vec<ProbedFormat> = Vec::new();
    for i in 0..doc.formats.len()
        invariant
            fs == doc.formats@,
            ids@.len() == i,
            forall|j: int| 0 <= j < i ==> (#[trigger] ids@[j])@ == format_id_of(fs[j]),
            out@.len() == listed_upto(fs, i as nat).len(),
            forall|k: int|
                0 <= k < out@.len() ==> format_matches(
                    #[trigger] out@[k],
                    fs[listed_upto(fs, i as nat)[k]],
                    listed_upto(fs, i as nat)[k],
                ),
    {
        let f = &doc.formats[i];
        let id_text = f.format_id.as_text();
        let id: Vec<char> = match &id_text {
            Some(s) => chars_of(s.as_str()),
            None => Vec::new(),
        };
        assert(id@ == format_id_of(fs[i as int]));
        let mut seen = false;
        let mut j: usize = 0;
        while j < i
            invariant
                j <= i,
                i < fs.len(),
                ids@.len() == i,
                forall|q: int| 0 <= q < i ==> (#[trigger] ids@[q])@ == format_id_of(fs[q]),
                id@ == format_id_of(fs[i as int]),
                seen <==> exists|q: int| 0 <= q < j && format_id_of(#[trigger] fs[q]) == id@,
            decreases i - j,
        {
            if chars_eq(&ids[j], &id) {
                seen = true;
            }
            proof {
                if ids@[j as int]@ == id@ {
                    assert(format_id_of(fs[j as int]) == id@);
                }
            }
            j = j + 1;
        }
        let listed = id.len() > 0 && !seen;
        proof {
            if listed {
                assert forall|q: int| 0 <= q < i implies format_id_of(#[trigger] fs[q]) != format_id_of(fs[i as int]) by {
                    if format_id_of(fs[q]) == id@ {
                        assert(exists|x: int| 0 <= x < j && format_id_of(#[trigger] fs[x]) == id@);
                    }
                }
            }
            assert(listed == first_of_id(fs, i as int));
        }
        let ghost before = listed_upto(fs, i as nat);
        if listed {
            let s = crate::text::string_of(&id);
            let p = probed_format(f, i, s);
            out.push(p);
            proof {
                let after = listed_upto(fs, (i + 1) as nat);
                assert(after == before + seq![i as int]);
                assert forall|k: int| 0 <= k < out@.len() implies format_matches(
                    #[trigger] out@[k],
                    fs[after[k]],
                    after[k],
                ) by {
                    if k < before.len() {
                        assert(after[k] == before[k]);
                    }
                }
            }
        } else {
            proof {
                assert(listed_upto(fs, (i + 1) as nat) =~= before);
            }
        }
        ids.push(id);
    }
    let max_height = max_height_of(&out);
    ProbedUrl {
        title,
        thumbnail_url,
        has_cover,
        is_playlist: playlist,
        playlist_count: cut_u32(count),
        host,
        site,
        formats: out,
        max_height,
    }
}

} // verus!
