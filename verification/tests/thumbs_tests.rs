use ytdlp_core::exec::{FileFacts, ToolResolver};
use ytdlp_core::thumbs::{extract_thumb, thumb_outcome, thumb_path};

#[test]
fn thumb_path_layout() {
    let p = thumb_path("/x/config/cache", "abc");
    assert_eq!(p, "/x/config/cache/thumbs/abc.jpg");
}

#[test]
fn extract_thumb_bad_source() {
    let resolver = ToolResolver::new(false);
    let err = extract_thumb(&resolver, &FileFacts::empty(), "no-such-file.mp4", "/tmp/no-thumb.jpg");
    assert!(err.is_err(), "源不存在应报错");
    assert!(thumb_outcome(false, false, "No such file").is_err());
    assert_eq!(thumb_outcome(true, false, "x").unwrap_err(), "抽帧失败：x");
    assert!(thumb_outcome(true, true, "").is_ok());
}

#[test]
fn extract_thumb_command() {
    let facts = FileFacts { search_dirs: vec!["/b".into()], files: vec!["/b/ffmpeg".into()] };
    let (prog, args) = extract_thumb(&ToolResolver::new(false), &facts, "/v/a.mp4", "/t/a.jpg").unwrap();
    assert_eq!(prog, "/b/ffmpeg");
    assert_eq!(args.join(" "), "-y -ss 0.5 -i /v/a.mp4 -frames:v 1 -vf scale=360:-2 -q:v 3 /t/a.jpg");
}
