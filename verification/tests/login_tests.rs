use ytdlp_core::login::{cookies_from_done_url, login_inject_script, login_url_for_host, parse_cookie_header};

#[test]
fn login_url_mapping() {
    assert!(login_url_for_host("www.youtube.com").unwrap().contains("youtube"));
    assert!(login_url_for_host("www.bilibili.com").unwrap().contains("bilibili"));
    assert!(login_url_for_host("x.com").unwrap().contains("x.com"));
    assert!(login_url_for_host("www.douyin.com").unwrap().contains("douyin"));
    assert!(login_url_for_host("example.com").is_none());
    assert!(login_url_for_host("www.netflix.com").is_none());
    assert!(login_url_for_host("mobile.x.com").unwrap().contains("x.com"));
    assert!(login_url_for_host("youtu.be").unwrap().contains("youtube"));
}

#[test]
fn parse_cookie_header_basic() {
    let c = parse_cookie_header("SID=abc; VISITOR_INFO1_LIVE=x; empty");
    assert_eq!(c.len(), 2);
    assert_eq!(c[0], ("SID".to_string(), "abc".to_string()));
    assert_eq!(c[1].0, "VISITOR_INFO1_LIVE");
}

#[test]
fn inject_script_has_800ms_keepalive() {
    let s = login_inject_script();
    assert!(s.contains("setInterval(ensure, 800)"));
    assert!(s.contains("ytdlp-login-bar"));
    assert!(s.contains("ytdlp-login-hint"));
    assert!(s.contains("登录完成"));
}

#[test]
fn done_url_cookies() {
    let url = "http://127.0.0.1/ytdlp-login-done?host=www.youtube.com&cookies=SID%3Dabc%3B%20PREF%3Df6";
    let cs = cookies_from_done_url(url, "www.youtube.com");
    assert_eq!(cs.len(), 2);
    assert_eq!((cs[0].name.as_str(), cs[0].value.as_str()), ("SID", "abc"));
    assert_eq!((cs[1].name.as_str(), cs[1].value.as_str()), ("PREF", "f6"));
    assert_eq!(cs[0].domain, ".youtube.com");
    assert_eq!(cs[0].path, "/");
    assert!(cs[0].secure && !cs[0].http_only);
    assert_eq!(cs[0].same_site, "lax");
    assert!(cookies_from_done_url("not a url", "x").is_empty());
}
