use ytdlp_core::probe::{
    classify_ytdlp_error, container_label, first_ids, has_video, is_playlist, last_line, lines_of,
    playlist_entry, probe_error_kind, short_acodec, short_vcodec, site_of, volumedetect_texts,
    ProbeErrorKind,
};

#[test]
fn classify_errors() {
    let e = classify_ytdlp_error("ERROR: Please sign in to view this video");
    assert_eq!(e.kind, ProbeErrorKind::NeedLogin);
    let e = classify_ytdlp_error("ERROR: Video unavailable. This video is private");
    assert_eq!(e.kind, ProbeErrorKind::NeedLogin);
    let e = classify_ytdlp_error("ERROR: Unable to download webpage: timed out");
    assert_eq!(e.kind, ProbeErrorKind::Network);
    let e = classify_ytdlp_error("ERROR: This video does not exist");
    assert_eq!(e.kind, ProbeErrorKind::InvalidLink);
    let e = classify_ytdlp_error("ERROR: something else happened");
    assert_eq!(e.kind, ProbeErrorKind::Failed);
}

#[test]
fn classify_message_is_last_line() {
    let e = classify_ytdlp_error("WARNING: x\nERROR: HTTP Error 404\n");
    assert_eq!(e.kind, ProbeErrorKind::InvalidLink);
    assert_eq!(e.message, "ERROR: HTTP Error 404");
    assert_eq!(e.to_string(), "ERROR: HTTP Error 404");
    assert_eq!(classify_ytdlp_error("").message, "未知错误");
    assert_eq!(probe_error_kind("this content is unavailable"), ProbeErrorKind::NeedLogin);
}

#[test]
fn lines_like_str_lines() {
    for s in ["", "a", "a\n", "a\r\nb", "a\n\nb\n", "x\r", "\n", "a\r\n\r\n"] {
        let want: Vec<String> = s.lines().map(|l| l.to_string()).collect();
        assert_eq!(lines_of(s), want, "{:?}", s);
        assert_eq!(last_line(s), want.last().cloned().unwrap_or_else(|| "未知错误".into()));
    }
}

#[test]
fn parse_volumedetect_ok() {
    let stderr = "\
[Parsed_volumedetect_0 @ 0x7f] n_samples: 1000
[Parsed_volumedetect_0 @ 0x7f] mean_volume: -15.3 dB
[Parsed_volumedetect_0 @ 0x7f] max_volume: -8.2 dB
";
    let (mean, max) = volumedetect_texts(stderr);
    assert_eq!(mean.as_deref(), Some("-15.3"));
    assert_eq!(max.as_deref(), Some("-8.2"));
}

#[test]
fn parse_volumedetect_empty() {
    assert_eq!(volumedetect_texts("").1, None);
}

#[test]
fn container_and_codec_names() {
    assert_eq!(container_label("mov,mp4,m4a,3gp"), "MP4");
    assert_eq!(container_label("matroska,webm"), "MATROSKA");
    assert_eq!(short_vcodec("avc1"), "H.264");
    assert_eq!(short_vcodec("HEVC"), "H.265");
    assert_eq!(short_vcodec("av01"), "AV1");
    assert_eq!(short_vcodec("VP09"), "vp09");
    assert_eq!(short_acodec("mp4a"), "AAC");
    assert_eq!(short_acodec("opus"), "Opus");
    assert!(has_video(&Some("avc1".into())));
    assert!(!has_video(&Some("None".into())));
    assert!(!has_video(&None));
}

#[test]
fn playlist_helpers() {
    assert!(is_playlist(&Some("playlist".into()), None));
    assert!(is_playlist(&None, Some(5)));
    assert!(!is_playlist(&None, Some(1)));
    let e = playlist_entry(None, Some("https://w/1".into()), Some("t".into())).unwrap();
    assert_eq!((e.url.as_str(), e.title.as_str()), ("https://w/1", "t"));
    assert!(playlist_entry(Some(String::new()), Some("https://w/1".into()), None).is_none());
    assert_eq!(site_of("youtube").as_deref(), Some("youtube"));
    assert_eq!(site_of(""), None);
}

#[test]
fn format_ids_keep_first() {
    let ids = vec!["a".to_string(), "b".to_string(), "a".to_string(), "c".to_string(), "b".to_string()];
    assert_eq!(first_ids(&ids), vec![0, 1, 3]);
}

#[test]
fn download_format_label_audio() {
    let l = ytdlp_core::probe::format_label(&ytdlp_core::probe::LabelFields {
        height: None,
        audio_only: true,
        ext: Some("m4a".into()),
        vcodec: None,
        acodec: Some("mp4a".into()),
        filesize_bytes: Some(5242880),
        fps_text: None,
    });
    assert!(l.contains("仅音频"));
    assert!(l.contains("M4A"));
    assert!(l.contains("AAC"));
    assert!(l.contains("5.0MB"));
    assert_eq!(l, "仅音频 · M4A · AAC · 5.0MB");
}

#[test]
fn download_format_label_video() {
    let l = ytdlp_core::probe::format_label(&ytdlp_core::probe::LabelFields {
        height: Some(1080),
        audio_only: false,
        ext: Some("mp4".into()),
        vcodec: Some("avc1".into()),
        acodec: Some("none".into()),
        filesize_bytes: Some(35651584),
        fps_text: Some(format!("{:.0}", 30.0f64)),
    });
    assert_eq!(l, "1080P · MP4 · H.264 · none · 34.0MB · 30fps");
}
