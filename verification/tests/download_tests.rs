use ytdlp_core::config::DownloadConfig;
use ytdlp_core::download::{
    build_args, default_format, destination_of, download_outputs, post_process_finish, progress_from_groups, progress_of, PostFinish,
    is_video_file, output_template, post_process_plan, DownloadParams,
};
use ytdlp_core::CoreError;

fn params() -> DownloadParams {
    DownloadParams {
        format_id: None,
        audio_only: false,
        out_dir: "D:/videos".into(),
        filename_template: "纯标题".into(),
        embed_cover: true,
        proxy: Some("socks5://127.0.0.1:10808".into()),
        cookies_file: None,
        sections: None,
    }
}

#[test]
fn output_template_mapping() {
    assert_eq!(output_template("纯标题", false), "%(title)s.%(ext)s");
    assert_eq!(output_template("标题+ID", false), "%(title)s [%(id)s].%(ext)s");
    assert_eq!(output_template("UP主-标题", false), "%(uploader)s - %(title)s.%(ext)s");
    assert_eq!(output_template("日期-标题", false), "%(upload_date)s %(title)s.%(ext)s");
    assert_eq!(output_template("未知", false), "%(title)s.%(ext)s");
    assert!(output_template("纯标题", true).contains("playlist"));
}

#[test]
fn default_format_includes_max_h() {
    let f = default_format(1080);
    assert!(f.contains("height<=1080"));
    let f = default_format(720);
    assert!(f.contains("height<=720"));
}

#[test]
fn default_format_exact_text() {
    assert_eq!(default_format(720), "bv*[height<=720]+ba/b[height<=720]/bv*+ba/b");
}

#[test]
fn build_args_defaults() {
    let args = build_args("https://example.com/v", &params(), &DownloadConfig::default());
    let joined = args.join(" ");
    assert!(joined.contains("--format"));
    assert!(joined.contains("bv*[height<=1080]+ba"));
    assert!(joined.contains("--merge-output-format mp4"));
    assert!(joined.contains("--no-overwrites"));
    assert!(joined.contains("-N 4"));
    assert!(joined.contains("--embed-thumbnail"));
    assert!(joined.contains("--no-playlist"));
    assert!(joined.contains("--proxy socks5://127.0.0.1:10808"));
    assert!(joined.contains("--newline"));
    assert!(joined.ends_with("https://example.com/v"));
}

#[test]
fn build_args_selected_format() {
    let mut p = params();
    p.format_id = Some("137".into());
    let args = build_args("u", &p, &DownloadConfig::default());
    let joined = args.join(" ");
    assert!(joined.contains("137+ba/b"));
}

#[test]
fn build_args_audio_only() {
    let mut p = params();
    p.audio_only = true;
    p.format_id = Some("140".into());
    let args = build_args("u", &p, &DownloadConfig::default());
    let joined = args.join(" ");
    assert!(joined.contains("-x"));
    assert!(joined.contains("--audio-format mp3"));
    assert!(joined.contains("140/bestaudio/best"));
}

#[test]
fn build_args_cookies_and_sections() {
    let mut p = params();
    p.proxy = Some(String::new());
    p.cookies_file = Some("/t/c.txt".into());
    p.sections = Some(("00:01:00".into(), "00:02:00".into()));
    let args = build_args("u", &p, &DownloadConfig::default());
    let joined = args.join(" ");
    assert!(!joined.contains("--proxy"));
    assert!(joined.contains("--cookies /t/c.txt"));
    assert!(joined.contains("--download-sections *00:01:00-00:02:00"));
    assert!(joined.contains("-o D:/videos/%(title)s.%(ext)s"));
}

#[test]
fn is_video_file_detects_exts() {
    assert!(is_video_file("a.MP4"));
    assert!(is_video_file("a.mkv"));
    assert!(!is_video_file("a.jpg"));
    assert!(!is_video_file("a.mp3"));
}

#[test]
fn path_name_and_extension() {
    assert!(is_video_file("/a/b.tar/c.webm"));
    assert!(!is_video_file("/a/b.mp4/c"));
    assert!(!is_video_file("/a/.."));
    assert!(!is_video_file("/v/.mp4"));
    assert!(is_video_file("/v/.x.Mp4"));
}

#[test]
fn destination_line_names_file() {
    assert_eq!(
        destination_of("[download] Destination: D:/videos/测试视频.mp4").as_deref(),
        Some("D:/videos/测试视频.mp4")
    );
    assert_eq!(destination_of("[download]  45.2% of 123.4MiB"), None);
    assert_eq!(destination_of("[youtube] abc: Downloading webpage"), None);
}

#[test]
fn download_outputs_dedup_and_existing() {
    let dests = vec!["/o/a.mp4".to_string(), "/o/a.mp4".to_string(), "/o/b.mp4".to_string()];
    let existing = vec!["/o/b.mp4".to_string(), "/o/a.mp4".to_string()];
    let got = download_outputs(&dests, &vec![], &existing).unwrap();
    assert_eq!(got, vec!["/o/a.mp4".to_string(), "/o/b.mp4".to_string()]);
    let got = download_outputs(&vec![], &vec!["/o/z.mkv".to_string()], &vec!["/o/z.mkv".to_string()]).unwrap();
    assert_eq!(got, vec!["/o/z.mkv".to_string()]);
    match download_outputs(&dests, &vec![], &vec![]) {
        Err(CoreError::ProcessFailed { program, code, stderr }) => {
            assert_eq!(program, "yt-dlp");
            assert_eq!(code, None);
            assert_eq!(stderr, "下载完成但未找到产物文件");
        }
        other => panic!("{:?}", other),
    }
}

#[test]
fn post_process_plan_cases() {
    assert!(post_process_plan("/o/a.mp4", 1080, Some(720), true, 2400, Some(-20)).is_none());
    let p = post_process_plan("/o/a.mp4", 1080, Some(2160), false, 2400, None).unwrap();
    assert_eq!(p.out, "/o/a.processed.mp4");
    assert_eq!(
        p.args.join(" "),
        "-i /o/a.mp4 -map 0 -vf scale=-2:'min(ih,1080)' -c:v libx265 -crf 23 -preset medium -tag:v hvc1 -c:a copy -movflags +faststart -y /o/a.processed.mp4"
    );
    let p = post_process_plan("/o/a.mp4", 1080, Some(720), true, 2400, Some(-820)).unwrap();
    assert_eq!(p.gain_cdb, Some(820));
    assert_eq!(
        p.args.join(" "),
        "-i /o/a.mp4 -map 0 -c:v copy -af volume=8.20dB -c:a aac -movflags +faststart -y /o/a.processed.mp4"
    );
}

#[test]
fn parse_progress_full_line() {
    let p = progress_of("[download]  45.2% of 123.4MiB at 5.2MiB/s ETA 00:15").unwrap();
    let percent: f32 = p.percent.as_deref().unwrap().parse().unwrap();
    assert!((percent - 45.2).abs() < 0.01);
    assert_eq!(p.speed.as_deref(), Some("5.2MiB/s"));
    assert_eq!(p.eta.as_deref(), Some("00:15"));
    assert_eq!(p.file, None);
}

#[test]
fn parse_progress_destination() {
    let p = progress_of("[download] Destination: D:/videos/测试视频.mp4").unwrap();
    assert_eq!(p.file.as_deref(), Some("D:/videos/测试视频.mp4"));
    assert_eq!(p.percent, None);
}

#[test]
fn parse_progress_plain_percent() {
    let p = progress_of("[download] 100.0% of 35.6MiB").unwrap();
    let percent: f32 = p.percent.as_deref().unwrap().parse().unwrap();
    assert_eq!(percent, 100.0);
    assert!(p.speed.is_none());
    assert!(p.eta.is_none());
}

#[test]
fn parse_progress_ignores_other_lines() {
    assert!(progress_of("[youtube] abc: Downloading webpage").is_none());
    assert!(progress_of("Merging formats into ...").is_none());
    assert!(progress_of("").is_none());
    assert!(progress_of("[download] has already been downloaded").is_none());
    assert!(progress_of("[download] 45% of 1MiB").is_none());
}

#[test]
fn progress_approximate_size_and_groups() {
    assert!(progress_of("[download]   3.0% of ~ 10.00MiB at 1.0KiB/s ETA 1:02:03").is_none());
    let q = progress_of("[download]   3.0% of ~10.00MiB at 1.0KiB/s ETA 1:02:03").unwrap();
    assert_eq!(q.percent.as_deref(), Some("3.0"));
    assert_eq!(q.speed.as_deref(), Some("1.0KiB/s"));
    assert_eq!(q.eta.as_deref(), Some("1:02"));
    let groups = vec![Some("1.5".to_string()), None];
    let r = progress_from_groups("x", None, Some(groups)).unwrap();
    assert_eq!(r.percent.as_deref(), Some(""));
    assert!(progress_from_groups("x", None, None).is_none());
}

#[test]
fn post_process_failure_keeps_original() {
    match post_process_finish(false, false, "  boom \n", "/d/a.processed.mp4") {
        PostFinish::KeepOriginal { log } => assert_eq!(log, "后处理失败（保留原文件）：boom"),
        other => panic!("{:?}", other),
    }
    match post_process_finish(false, true, "", "/d/a.processed.mp4") {
        PostFinish::Replace { temp } => assert_eq!(temp, "/d/a.processed.mp4.tmp"),
        other => panic!("{:?}", other),
    }
    assert!(matches!(post_process_finish(true, true, "", "/d/x.mp4"), PostFinish::Canceled));
}
