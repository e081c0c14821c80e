use ytdlp_core::commands::{
    relogin_target, retry_start, urls_to_add,
    clean_url, default_merge_name, dependency_status, download_start, finish_status, merge_job,
    now_str, output_dir, probe_failure_status, restore_status, sections_of, select_for,
    today_stamp, transcode_batch, valid_time, Candidate,
};
use ytdlp_core::exec::{FileFacts, Tool, ToolResolver};
use ytdlp_core::model::{ItemKind, Status};
use ytdlp_core::probe::ProbeErrorKind;
use ytdlp_core::{CoreError, IoErrorKind};

fn cand(id: &str, present: bool, has_file: bool, status: Status) -> Candidate {
    Candidate { id: id.into(), present, has_file, status }
}

#[test]
fn clean_url_strips_quotes() {
    assert_eq!(clean_url("  \"https://a/b\"  "), "https://a/b");
    assert_eq!(clean_url("'https://a/b' "), "https://a/b");
    assert_eq!(clean_url("\" 'x' \""), "'x'");
}

#[test]
fn stamps_have_fixed_shape() {
    let d = today_stamp();
    assert_eq!(d.len(), 8);
    assert!(d.chars().all(|c| c.is_ascii_digit()));
    assert!(default_merge_name().starts_with("合并_20"));
    let n = now_str();
    assert_eq!(n.len(), 19);
    assert_eq!(&n[4..5], "-");
    assert_eq!(&n[10..11], " ");
    assert_eq!(&n[13..14], ":");
}

#[test]
fn time_ranges() {
    assert!(valid_time(""));
    assert!(valid_time("00:01:00"));
    assert!(valid_time("1:2:3"));
    assert!(!valid_time("001:00:00"));
    assert!(!valid_time("00:00"));
    assert!(!valid_time("aa:00:00"));
    assert_eq!(sections_of(String::new(), String::new()), Ok(None));
    assert_eq!(
        sections_of("00:01:00".into(), "00:02:00".into()),
        Ok(Some(("00:01:00".to_string(), "00:02:00".to_string())))
    );
    assert_eq!(
        sections_of("1:00".into(), String::new()),
        Err("时间格式应为 HH:MM:SS（如 00:01:00）".to_string())
    );
}

#[test]
fn statuses_after_work() {
    assert_eq!(restore_status(ItemKind::LocalFile), Status::Ready);
    assert_eq!(restore_status(ItemKind::TranscodeOut), Status::Done);
    assert_eq!(restore_status(ItemKind::MergeOut), Status::Done);
    assert_eq!(restore_status(ItemKind::UrlTask), Status::Done);
    assert_eq!(finish_status(&None), Status::Done);
    assert_eq!(finish_status(&Some(CoreError::Cancelled)), Status::Canceled);
    assert_eq!(finish_status(&Some(CoreError::Io(IoErrorKind::Other, "x".into()))), Status::Failed);
    assert_eq!(probe_failure_status(ProbeErrorKind::NeedLogin), Status::NeedLogin);
    assert_eq!(probe_failure_status(ProbeErrorKind::Network), Status::Failed);
    assert_eq!(download_start(Status::Ready), Ok(Status::Downloading));
    assert_eq!(download_start(Status::Done), Err("当前状态不可下载：已完成".to_string()));
}

#[test]
fn output_directory_choice() {
    assert_eq!(output_dir(Some("/cli".into()), Some("/cfg".into()), None, None, "/r"), "/cli");
    assert_eq!(output_dir(Some(String::new()), Some("/cfg".into()), None, None, "/r"), "/cfg");
    assert_eq!(output_dir(None, None, Some("C:/Users/u".into()), Some("/h".into()), "/r"), "C:/Users/u/Desktop");
    assert_eq!(output_dir(None, None, None, Some("/h".into()), "/r"), "/h/Desktop");
    assert_eq!(output_dir(None, Some(String::new()), None, None, "/r"), "/r/output");
}

#[test]
fn batch_selection() {
    let cs = vec![
        cand("a", true, true, Status::Ready),
        cand("b", true, false, Status::Ready),
        cand("c", true, true, Status::Probing),
        cand("d", true, true, Status::Done),
    ];
    let sel = select_for(&cs, Status::Transcoding, "no file", "skip: ");
    assert_eq!(sel.accepted, vec![("a".to_string(), Status::Transcoding), ("d".to_string(), Status::Transcoding)]);
    assert_eq!(sel.skipped[0], ("b".to_string(), "no file".to_string()));
    assert_eq!(sel.skipped[1], ("c".to_string(), "skip: 状态不允许：解析中 → 转码中".to_string()));
    assert!(!sel.missing);
    let (_, r) = transcode_batch(&cs);
    assert!(r.is_ok());
    let (_, r) = transcode_batch(&vec![]);
    assert_eq!(r, Err("未选择条目".to_string()));
    let (sel, r) = transcode_batch(&vec![cand("a", true, true, Status::Ready), cand("z", false, true, Status::Ready)]);
    assert!(sel.missing);
    assert_eq!(r, Err("条目不存在".to_string()));
}

#[test]
fn merge_job_rules() {
    let (_, r) = merge_job(&vec![cand("a", true, true, Status::Ready)], None, None, None, None, true);
    assert_eq!(r.unwrap_err(), "合并至少需要 2 个条目");
    let cs = vec![cand("a", true, true, Status::Ready), cand("b", true, false, Status::Ready)];
    let (_, r) = merge_job(&cs, None, None, None, None, true);
    assert_eq!(r.unwrap_err(), "可合并条目不足 2 个");
    let cs = vec![cand("a", true, true, Status::Ready), cand("b", true, true, Status::Done)];
    let (sel, r) = merge_job(&cs, None, None, Some("nvenc".into()), None, true);
    let job = r.unwrap();
    assert_eq!(sel.accepted.len(), 2);
    assert_eq!(job.ids, vec!["a".to_string(), "b".to_string()]);
    assert!(job.filename.starts_with("合并_"));
    assert_eq!(job.container, "mp4");
    assert_eq!(job.encoder_mode, "nvenc");
    assert!(job.normalize_audio);
}

#[test]
fn dependency_rows() {
    let facts = FileFacts { search_dirs: vec!["/b".into()], files: vec!["/b/ffmpeg".into()] };
    let r = ToolResolver::new(false);
    let row = dependency_status(&r, &facts, Tool::Ffmpeg, Some("ffmpeg version 7.0\nx".into()));
    assert!(row.ok);
    assert_eq!(row.tool, "ffmpeg");
    assert_eq!(row.path.as_deref(), Some("/b/ffmpeg"));
    assert_eq!(row.version.as_deref(), Some("ffmpeg version 7.0"));
    let row = dependency_status(&r, &facts, Tool::Deno, None);
    assert!(!row.ok && row.path.is_none() && row.version.is_none());
}

#[test]
fn urls_retry_and_relogin() {
    assert_eq!(
        urls_to_add(&vec![" \"https://a/1\" ".into(), "  ".into(), "'https://b/2'".into()]),
        vec!["https://a/1".to_string(), "https://b/2".to_string()]
    );
    assert_eq!(retry_start(Status::Failed), Ok(Status::Probing));
    assert_eq!(retry_start(Status::NeedLogin), Ok(Status::Probing));
    assert_eq!(retry_start(Status::Ready), Err("仅失败/已取消/需要登录可重试".to_string()));
    assert_eq!(
        relogin_target(&None, &Some("https://WWW.YouTube.com/watch?v=1".into())),
        Ok(("www.youtube.com".to_string(), "https://www.youtube.com/".to_string()))
    );
    assert_eq!(relogin_target(&None, &None), Err("无法确定登录站点".to_string()));
    assert_eq!(
        relogin_target(&Some("vimeo.com".into()), &None),
        Err("该站点不支持内置登录".to_string())
    );
}
