use ytdlp_core::paths::{Paths, DIR_CONFIG};

#[test]
fn paths_resolve_exe_relative_dirs() {
    let p = Paths::from_root("/r");
    assert_eq!(p.config_dir(), "/r/config");
    assert_eq!(p.temp_dir(), "/r/temp");
    assert_eq!(p.tools_dir(), "/r/tools");
    assert_eq!(p.cookies_dir(), "/r/config/cookies");
    assert_eq!(p.cache_dir(), "/r/config/cache");
    assert_eq!(p.config_file(), "/r/config/config.json");
    assert_eq!(p.history_file(), "/r/config/history.json");
    assert_eq!(p.root(), "/r");
}

#[test]
fn task_temp_dir_isolated_by_id() {
    let p = Paths::from_root("/r");
    assert_eq!(p.task_temp_dir("abc"), "/r/temp/abc");
}

#[test]
fn join_path_like_path_join() {
    for root in ["/r", "/r/", "r", ""] {
        let want = std::path::Path::new(root).join("config").to_string_lossy().into_owned();
        assert_eq!(Paths::from_root(root).config_dir(), want, "{}", root);
    }
    assert_eq!(Paths::from_root("/r").task_temp_dir("/abs"), "/abs");
    assert_eq!(DIR_CONFIG, "config");
}
