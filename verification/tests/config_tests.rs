use ytdlp_core::config::{
    site_covers,
    config_corrupt, corrupt_ext, AppConfig, GeneralConfig, NetworkConfig, SiteProxy,
    HISTORY_LIMIT_MAX,
};
use ytdlp_core::CoreError;

#[test]
fn defaults_match_spec() {
    let c = AppConfig::default();
    assert_eq!(c.download.max_h, 1080);
    assert_eq!(c.download.fragments, 4);
    assert!(!c.download.playlist);
    assert!(c.download.embed_cover);
    assert_eq!(c.transcode.force_encoder_mode, "auto");
    assert!(c.transcode.low_power);
    assert_eq!(c.general.concurrency, 3);
    // 24.0 dB, kept in hundredths of a dB.
    assert_eq!(c.general.max_gain_cdb, 2400);
    assert!(c.general.check_update);
    assert_eq!(c.general.history_limit, 100);
    assert!(c.dependencies.potoken_enabled);
    assert!(c.dependencies.yt_dlp_path.is_none());
    assert_eq!(c.network.proxy_url, "");
}

#[test]
fn history_limit_bounded() {
    assert!(HISTORY_LIMIT_MAX >= GeneralConfig::default().history_limit);
}

#[test]
fn resolve_proxy_global_when_no_site_split() {
    let n = NetworkConfig {
        proxy_url: "socks5://127.0.0.1:10808".into(),
        ..Default::default()
    };
    assert_eq!(
        n.resolve_proxy("https://www.bilibili.com/video/BV1xx"),
        Some("socks5://127.0.0.1:10808".to_string())
    );
    assert_eq!(
        NetworkConfig::default().resolve_proxy("https://www.bilibili.com/video/BV1xx"),
        None
    );
}

#[test]
fn resolve_proxy_site_split() {
    let mut n = NetworkConfig {
        proxy_url: "socks5://127.0.0.1:10808".into(),
        ..Default::default()
    };
    n.site_proxy.insert("bilibili.com".into(), false);
    assert_eq!(n.resolve_proxy("https://www.bilibili.com/video/BV1xx"), None);
    n.site_proxy.insert("youtube.com".into(), true);
    assert_eq!(
        n.resolve_proxy("https://www.youtube.com/watch?v=abc"),
        Some("socks5://127.0.0.1:10808".to_string())
    );
    assert_eq!(n.resolve_proxy("https://vimeo.com/1"), None);
    assert_eq!(n.resolve_proxy("https://api.bilibili.com/x"), None);
}

#[test]
fn site_proxy_insert_replaces_and_reports_previous() {
    let mut s = SiteProxy::new();
    assert!(s.is_empty());
    assert_eq!(s.insert("youtube.com".into(), true), None);
    assert_eq!(s.insert("youtube.com".into(), false), Some(true));
    assert_eq!(s.len(), 1);
    assert_eq!(s.get("youtube.com"), Some(false));
    assert_eq!(s.get("vimeo.com"), None);
}

#[test]
fn resolve_proxy_port_and_case_in_host() {
    let mut n = NetworkConfig {
        proxy_url: "http://p:1".into(),
        ..Default::default()
    };
    n.site_proxy.insert(".YouTube.com".into(), true);
    assert_eq!(
        n.resolve_proxy("  HTTPS://M.YOUTUBE.COM:443/watch  "),
        Some("http://p:1".to_string())
    );
    assert_eq!(n.resolve_proxy("https://notyoutube.com/"), None);
}

#[test]
fn corrupt_config_error_names_backup() {
    assert_eq!(corrupt_ext(17), "corrupt-17.json");
    match config_corrupt("expected value", "/c/config.corrupt-17.json") {
        CoreError::ConfigCorrupt(m) => {
            assert_eq!(m, "expected value（已备份到 /c/config.corrupt-17.json）")
        }
        other => panic!("{:?}", other),
    }
}

#[test]
fn proxy_for_lowered_host() {
    let mut n = NetworkConfig { proxy_url: "socks5://127.0.0.1:10808".into(), ..Default::default() };
    assert_eq!(n.proxy_for_host("www.bilibili.com"), Some("socks5://127.0.0.1:10808".to_string()));
    n.site_proxy.insert("bilibili.com".into(), false);
    n.site_proxy.insert("youtube.com".into(), true);
    assert_eq!(n.proxy_for_host("api.bilibili.com"), None);
    assert_eq!(n.proxy_for_host("m.youtube.com"), Some("socks5://127.0.0.1:10808".to_string()));
    assert_eq!(n.proxy_for_host("notyoutube.com"), None);
    assert!(site_covers("youtube.com", "youtube.com"));
    assert!(site_covers("youtube.com", "www.youtube.com"));
    assert!(!site_covers("youtube.com", "xyoutube.com"));
    assert!(!site_covers("", "youtube.com"));
    assert_eq!(n.site_proxy.insert("youtube.com".into(), false), Some(true));
    assert_eq!(n.site_proxy.len(), 2);
    let copy = n.site_proxy.clone();
    assert_eq!(copy.to_vec(), n.site_proxy.to_vec());
}
