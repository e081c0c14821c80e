use std::io::Write;
use ytdlp_core::exec::{FileFacts, Tool, ToolResolver};
use ytdlp_core::tool_download::{
    check_digest, download_failure, extract_entry, hex_of, needs_download, sha256_hex,
    sha_from_text, ToolDownloader, ToolKind,
};

#[test]
fn config_key_roundtrip() {
    assert_eq!(ToolKind::from_config_key("yt_dlp_path"), Some(ToolKind::YtDlp));
    assert_eq!(ToolKind::from_config_key("deno_path"), Some(ToolKind::Deno));
    assert_eq!(ToolKind::from_config_key("nope"), None);
}

#[test]
fn urls_and_entries() {
    assert!(ToolKind::YtDlp.url().ends_with("yt-dlp.exe"));
    assert!(ToolKind::Ffmpeg.url().contains("ffmpeg-master-latest-win64-gpl.zip"));
    assert_eq!(ToolKind::Ffmpeg.zip_entry(), Some("ffmpeg-master-latest-win64-gpl/bin/ffmpeg.exe"));
    assert_eq!(ToolKind::Deno.zip_entry(), Some("deno.exe"));
    assert_eq!(ToolKind::YtDlp.exe_name(), "yt-dlp.exe");
    assert_eq!(ToolKind::Ffprobe.tool(), Tool::Ffprobe);
    assert_eq!(ToolKind::Deno.sha_url(), Some("https://github.com/denoland/deno/releases/latest/download/deno-x86_64-pc-windows-msvc.zip.sha256"));
}

#[test]
fn downloader_target_path() {
    let dl = ToolDownloader::new("/x/tools", "/x/temp");
    assert_eq!(dl.target_path(ToolKind::Deno), "/x/tools/deno.exe");
    assert_eq!(dl.artifact_path(ToolKind::Ffmpeg, 42), "/x/temp/ffmpeg.exe-42.zip");
    assert_eq!(dl.artifact_path(ToolKind::YtDlp, 7), "/x/temp/yt-dlp.exe-7.bin");
    assert_eq!(dl.activation_temp(ToolKind::YtDlp), "/x/tools/yt-dlp.exe.tmp");
    let dl = dl.with_cancel(None);
    assert!(dl.cancel.is_none());
}

#[test]
fn sha256_of_known_text() {
    assert_eq!(
        sha256_hex(b"abc"),
        "ba7816bf8f01cfea414140de5dae2223b00361a396177a9cb410ff61f20015ad"
    );
    assert_eq!(hex_of(&[0u8, 15, 16, 255]), "000f10ff");
}

#[test]
fn sha_side_file_parsing() {
    let h = "ba7816bf8f01cfea414140de5dae2223b00361a396177a9cb410ff61f20015ad";
    assert_eq!(sha_from_text(&format!("{}  yt-dlp.exe\n", h)).as_deref(), Some(h));
    assert_eq!(sha_from_text(&format!("\n {}", h)).as_deref(), Some(h));
    assert_eq!(sha_from_text("deadbeef  x"), None);
    assert_eq!(sha_from_text(""), None);
}

#[test]
fn digest_check() {
    let d = "ba7816bf8f01cfea414140de5dae2223b00361a396177a9cb410ff61f20015ad";
    assert!(check_digest(d, "").is_ok());
    assert!(check_digest(d, d).is_ok());
    assert!(check_digest(d, &d.to_uppercase()).is_ok());
    let w = "0000000000000000000000000000000000000000000000000000000000000000";
    assert_eq!(
        check_digest(d, w).unwrap_err(),
        "SHA-256 校验失败：期望 0000000000000000 实际 ba7816bf8f01cfea"
    );
}

#[test]
fn download_helpers() {
    assert!(needs_download(false, false));
    assert!(needs_download(true, true));
    assert!(!needs_download(true, false));
    assert_eq!(download_failure("u", "  "), "下载失败 u");
    assert_eq!(download_failure("u", " 404\n"), "下载失败 u: 404");
    assert!(extract_entry(b"not a zip", "deno.exe").unwrap_err().starts_with("解析压缩包失败："));
}

#[test]
fn zip_entry_roundtrip() {
    let mut buf = std::io::Cursor::new(Vec::new());
    {
        let mut w = zip::ZipWriter::new(&mut buf);
        let opts = zip::write::SimpleFileOptions::default()
            .compression_method(zip::CompressionMethod::Stored);
        w.start_file("bin/ffmpeg.exe", opts).unwrap();
        w.write_all(b"MZ-binary").unwrap();
        w.finish().unwrap();
    }
    let bytes = buf.into_inner();
    assert_eq!(extract_entry(&bytes, "bin/ffmpeg.exe").unwrap(), b"MZ-binary".to_vec());
    assert_eq!(extract_entry(&bytes, "deno.exe").unwrap_err(), "压缩包内未找到 deno.exe");
}

#[test]
fn installed_tools_found_by_windows_resolver() {
    let dl = ToolDownloader::new("/x/tools", "/x/temp");
    let resolver = ToolResolver::new(true).with_tools_dir("/x/tools");
    for kind in [ToolKind::YtDlp, ToolKind::Ffmpeg, ToolKind::Ffprobe, ToolKind::Deno] {
        let target = dl.target_path(kind);
        let facts = FileFacts { search_dirs: vec![], files: vec![target.clone()] };
        assert_eq!(resolver.resolve(kind.tool(), &facts).unwrap(), target);
    }
}
