use ytdlp_core::probe::{format_label, LabelFields};
use ytdlp_core::probe_doc::{
    ffprobe_meta, ytdlp_probe, FfprobeDoc, FfprobeFormat, FfprobeStream, JsonField, ProbedFormat, YtdlpDoc,
    YtdlpFormat,
};

fn text(s: &str) -> JsonField {
    JsonField::Text(s.to_string())
}

fn uint(n: u64) -> JsonField {
    JsonField::Number { unsigned: Some(n), text: n.to_string() }
}

fn float(t: &str) -> JsonField {
    JsonField::Number { unsigned: None, text: t.to_string() }
}

fn format(id: JsonField) -> YtdlpFormat {
    YtdlpFormat {
        format_id: id,
        ext: JsonField::Absent,
        height: JsonField::Absent,
        vcodec: JsonField::Absent,
        acodec: JsonField::Absent,
        fps: JsonField::Absent,
        filesize: JsonField::Absent,
        filesize_approx: JsonField::Absent,
        tbr: JsonField::Absent,
        format_note: JsonField::Absent,
    }
}

fn doc(formats: Vec<YtdlpFormat>) -> YtdlpDoc {
    YtdlpDoc {
        title: JsonField::Absent,
        duration: JsonField::Absent,
        thumbnail: JsonField::Absent,
        kind: JsonField::Absent,
        playlist_count: JsonField::Absent,
        webpage_url: JsonField::Absent,
        extractor: JsonField::Absent,
        formats,
    }
}

/// The sample document: a 1080p H.264 format and an AAC audio format.
fn sample() -> YtdlpDoc {
    let mut video = format(text("137"));
    video.ext = text("mp4");
    video.height = uint(1080);
    video.vcodec = text("avc1");
    video.acodec = text("none");
    video.fps = float("30.0");
    video.filesize = uint(35651584);
    video.tbr = float("1200.0");
    video.format_note = text("1080p");
    let mut audio = format(text("140"));
    audio.ext = text("m4a");
    audio.vcodec = text("none");
    audio.acodec = text("mp4a");
    audio.fps = JsonField::Null;
    audio.filesize = uint(5242880);
    audio.tbr = float("128.0");
    audio.format_note = text("medium");
    let mut d = doc(vec![video, audio]);
    d.title = text("示例视频标题");
    d.duration = float("332.5");
    d.thumbnail = text("https://i.ytimg.com/vi/abc123/maxresdefault.jpg");
    d.extractor = text("youtube");
    d.webpage_url = text("https://www.youtube.com/watch?v=abc123");
    d
}

fn label(f: &ProbedFormat, fps: Option<&str>) -> String {
    format_label(&LabelFields {
        height: f.height,
        audio_only: f.audio_only,
        ext: f.ext.clone(),
        vcodec: f.vcodec.clone(),
        acodec: f.acodec.clone(),
        filesize_bytes: f.filesize_bytes,
        fps_text: fps.map(str::to_string),
    })
}

#[test]
fn parse_ytdlp_json_basic() {
    let p = ytdlp_probe(&sample());
    assert_eq!(p.title.as_deref(), Some("示例视频标题"));
    assert_eq!(p.host.as_deref(), Some("www.youtube.com"));
    assert_eq!(p.site.as_deref(), Some("youtube"));
    assert_eq!(p.thumbnail_url.as_deref(), Some("https://i.ytimg.com/vi/abc123/maxresdefault.jpg"));
    assert!(p.has_cover);
    assert!(!p.is_playlist);
}

#[test]
fn parse_ytdlp_json_formats() {
    let p = ytdlp_probe(&sample());
    assert_eq!(p.formats.len(), 2);
    let video = &p.formats[0];
    assert_eq!(video.format_id, "137");
    assert_eq!(video.height, Some(1080));
    assert_eq!(video.filesize_bytes, Some(35651584));
    assert!(!video.audio_only);
    let l = label(video, Some("30"));
    assert!(l.contains("1080P"));
    assert!(l.contains("H.264"));
    let audio = &p.formats[1];
    assert_eq!(audio.index, 1);
    assert!(audio.audio_only);
    let l = label(audio, None);
    assert!(l.contains("仅音频"));
    assert!(l.contains("AAC"));
    assert_eq!(p.max_height, Some(1080));
}

#[test]
fn parse_ytdlp_json_playlist() {
    let mut d = doc(vec![]);
    d.kind = text("playlist");
    d.playlist_count = uint(5);
    d.title = text("合集");
    let p = ytdlp_probe(&d);
    assert!(p.is_playlist);
    assert_eq!(p.playlist_count, Some(5));
    assert_eq!(p.max_height, None);
    assert!(!p.has_cover);
}

#[test]
fn parse_ytdlp_json_dedup_format_ids() {
    let mut a = format(text("a"));
    a.vcodec = text("avc1");
    a.acodec = text("none");
    let b = a.clone();
    let p = ytdlp_probe(&doc(vec![a, b]));
    assert_eq!(p.formats.len(), 1);
}

#[test]
fn ytdlp_formats_without_id_are_skipped() {
    let mut first = format(JsonField::Absent);
    first.height = uint(2160);
    let mut second = format(text(""));
    second.height = uint(1440);
    let mut third = format(text("22"));
    third.vcodec = text("avc1");
    third.filesize = JsonField::Null;
    third.filesize_approx = uint(7);
    let mut fourth = format(text("23"));
    fourth.filesize_approx = uint(9);
    let p = ytdlp_probe(&doc(vec![first, second, third, fourth]));
    assert_eq!(p.formats.len(), 2);
    assert_eq!(p.formats[0].index, 2);
    assert_eq!(p.formats[0].filesize_bytes, None);
    assert_eq!(p.formats[1].filesize_bytes, Some(9));
    assert_eq!(p.max_height, Some(0));
}

#[test]
fn ytdlp_host_and_site_need_text() {
    let mut d = doc(vec![]);
    d.webpage_url = text("");
    d.extractor = text("");
    let p = ytdlp_probe(&d);
    assert_eq!(p.host, None);
    assert_eq!(p.site, None);
    d.playlist_count = uint(1);
    assert!(!ytdlp_probe(&d).is_playlist);
}

fn stream(kind: &str, codec: &str) -> FfprobeStream {
    FfprobeStream {
        codec_type: text(kind),
        codec_name: text(codec),
        height: JsonField::Absent,
        avg_frame_rate: JsonField::Absent,
        bit_rate: JsonField::Absent,
        extradata: JsonField::Absent,
        attached_pic: JsonField::Absent,
        sample_rate: JsonField::Absent,
    }
}

#[test]
fn parse_ffprobe_json_media() {
    let mut video = stream("video", "hevc");
    video.height = uint(1080);
    video.avg_frame_rate = text("60/1");
    video.bit_rate = text("12000000");
    let mut a1 = stream("audio", "aac");
    a1.bit_rate = text("320000");
    let mut a2 = stream("audio", "aac");
    a2.bit_rate = text("128000");
    let d = FfprobeDoc {
        format: Some(FfprobeFormat {
            format_name: text("mov,mp4,m4a"),
            duration: text("332.000000"),
            size: text("35651584"),
        }),
        streams: vec![video, a1, a2],
    };
    let m = ffprobe_meta(&d);
    assert_eq!(m.height, Some(1080));
    assert_eq!(m.vcodec.as_deref(), Some("hevc"));
    assert_eq!(m.frame_rate.as_deref(), Some("60/1"));
    assert_eq!(m.vbitrate_text.as_deref(), Some("12000000"));
    assert_eq!(m.acodec.as_deref(), Some("aac"));
    assert_eq!(m.audio_tracks, Some(2));
    assert_eq!(m.abitrate_text.as_deref(), Some("320000"));
    assert_eq!(m.container.as_deref(), Some("MP4"));
    assert_eq!(m.duration_text.as_deref(), Some("332.000000"));
    assert_eq!(m.size_bytes, Some(35651584));
    assert!(!m.has_cover);
}

#[test]
fn parse_ffprobe_json_attached_pic_cover() {
    let mut pic = stream("video", "mjpeg");
    pic.attached_pic = uint(1);
    let mut video = stream("video", "hevc");
    video.height = uint(1080);
    let d = FfprobeDoc { format: None, streams: vec![pic, video, stream("audio", "aac")] };
    let m = ffprobe_meta(&d);
    assert!(m.has_cover);
    assert_eq!(m.height, Some(1080));
    assert_eq!(m.container, None);
}

#[test]
fn ffprobe_audio_from_first_named_stream() {
    let mut unnamed = stream("audio", "x");
    unnamed.codec_name = JsonField::Null;
    unnamed.sample_rate = text("22050");
    let mut named = stream("audio", "opus");
    named.sample_rate = text("48000");
    let mut later = stream("audio", "aac");
    later.sample_rate = text("44100");
    let mut cover = stream("video", "png");
    cover.attached_pic = text("1");
    let d = FfprobeDoc { format: None, streams: vec![unnamed, named, later, cover] };
    let m = ffprobe_meta(&d);
    assert_eq!(m.acodec.as_deref(), Some("opus"));
    assert_eq!(m.sample_rate, Some(48000));
    assert_eq!(m.audio_tracks, Some(3));
    assert!(m.has_cover);
    assert_eq!(m.vcodec.as_deref(), Some("png"));
    let none = ffprobe_meta(&FfprobeDoc { format: None, streams: vec![] });
    assert_eq!(none.audio_tracks, None);
    assert_eq!(none.acodec, None);
}
