use ytdlp_core::config::DependenciesConfig;
use ytdlp_core::exec::{tool_version, validate_tool_path, version_arg, FileFacts, Tool, ToolResolver};
use ytdlp_core::{CoreError, IoErrorKind};

#[test]
fn tool_names() {
    assert_eq!(Tool::YtDlp.name(), "yt-dlp");
    assert_eq!(Tool::Ffmpeg.exe_name(true), "ffmpeg.exe");
    assert_eq!(Tool::Ffprobe.exe_name(true), "ffprobe.exe");
    assert_eq!(Tool::Ffmpeg.exe_name(false), "ffmpeg");
    assert_eq!(Tool::Ffprobe.exe_name(false), "ffprobe");
    assert_eq!(Tool::Deno.name(), "deno");
}

#[test]
fn default_resolver_uses_path() {
    let r = ToolResolver::new(false);
    let facts = FileFacts {
        search_dirs: vec!["/usr/bin".into(), "/opt/bin".into()],
        files: vec!["/opt/bin/yt-dlp".into()],
    };
    assert_eq!(r.resolve(Tool::YtDlp, &facts).unwrap(), "/opt/bin/yt-dlp");
    match r.resolve(Tool::Ffmpeg, &facts) {
        Err(CoreError::Io(IoErrorKind::NotFound, m)) => {
            assert_eq!(m, "未找到 ffmpeg（请设置路径或加入系统 PATH）")
        }
        other => panic!("{:?}", other),
    }
}

#[test]
fn configured_path_must_exist() {
    let cfg = DependenciesConfig {
        ffmpeg_path: Some("/tmp/x/nonexistent-ffmpeg".into()),
        ..Default::default()
    };
    let r = ToolResolver::from_config(&cfg, false);
    let facts = FileFacts {
        search_dirs: vec!["/usr/bin".into()],
        files: vec!["/usr/bin/ffmpeg".into()],
    };
    let err = r.resolve(Tool::Ffmpeg, &facts).unwrap_err();
    assert!(matches!(err, CoreError::Io(IoErrorKind::NotFound, _)));
}

#[test]
fn with_tools_dir_fills_managed_paths() {
    let facts = FileFacts {
        search_dirs: vec![],
        files: vec!["/r/tools/yt-dlp".into(), "/r/tools/deno".into()],
    };
    let r = ToolResolver::new(false).with_tools_dir("/r/tools");
    assert_eq!(r.resolve(Tool::YtDlp, &facts).unwrap(), "/r/tools/yt-dlp");
    assert_eq!(r.resolve(Tool::Deno, &facts).unwrap(), "/r/tools/deno");
    assert!(r.resolve(Tool::Ffmpeg, &facts).is_err());
}

#[test]
fn configured_overrides_tools_dir() {
    let facts = FileFacts { search_dirs: vec![], files: vec!["/r/custom-ffmpeg".into()] };
    let cfg = DependenciesConfig {
        ffmpeg_path: Some("/r/custom-ffmpeg".into()),
        ..Default::default()
    };
    let r = ToolResolver::from_config(&cfg, false).with_tools_dir("/r");
    assert_eq!(r.resolve(Tool::Ffmpeg, &facts).unwrap(), "/r/custom-ffmpeg");
}

#[test]
fn tool_version_reads_first_line() {
    assert_eq!(
        tool_version("ffmpeg version 6.1 Copyright\nbuilt with gcc\n").as_deref(),
        Some("ffmpeg version 6.1 Copyright")
    );
    assert_eq!(tool_version("  2024.08.06  \r\n"), Some("2024.08.06".to_string()));
    assert_eq!(tool_version(""), None);
    assert_eq!(tool_version("\nffmpeg version 7.0"), None);
    assert_eq!(tool_version("   \r\nrest"), None);
    assert_eq!(version_arg(Tool::Ffprobe), "-version");
    assert_eq!(version_arg(Tool::YtDlp), "--version");
}

#[test]
fn validate_tool_path_rejects_missing() {
    assert!(validate_tool_path("/tmp/x/nope", Tool::Ffmpeg, false).is_err());
    assert!(validate_tool_path("/usr/bin/ffmpeg", Tool::Ffmpeg, true).is_ok());
}

#[test]
fn all_available_needs_three_tools() {
    let mut facts = FileFacts {
        search_dirs: vec!["/b".into()],
        files: vec!["/b/yt-dlp".into(), "/b/ffmpeg".into()],
    };
    let r = ToolResolver::new(false);
    assert!(!r.all_available(&facts));
    facts.files.push("/b/ffprobe".into());
    assert!(r.all_available(&facts));
}

#[test]
fn windows_managed_tools_carry_exe() {
    let facts = FileFacts {
        search_dirs: vec!["/p".into()],
        files: vec!["/r/tools/yt-dlp.exe".into(), "/p/ffmpeg.exe".into(), "/p/ffprobe".into()],
    };
    let r = ToolResolver::new(true).with_tools_dir("/r/tools");
    assert_eq!(r.resolve(Tool::YtDlp, &facts).unwrap(), "/r/tools/yt-dlp.exe");
    let plain = ToolResolver::new(true);
    assert_eq!(plain.resolve(Tool::Ffmpeg, &facts).unwrap(), "/p/ffmpeg.exe");
    assert!(plain.resolve(Tool::Ffprobe, &facts).is_err());
    assert_eq!(plain.candidates(Tool::Deno, &vec!["/a".to_string()]), vec!["/a/deno.exe".to_string()]);
}
