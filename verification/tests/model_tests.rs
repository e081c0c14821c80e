use std::collections::VecDeque;
use ytdlp_core::model::{human_size, push_log, subline, ItemKind, RotAngle, Status, StatusGroup};
use ytdlp_core::transition;
use ytdlp_core::CoreError;

#[test]
fn rot_angle_cw_cycles() {
    let mut a = RotAngle::zero();
    a = a.rotate_cw();
    assert_eq!(a.degrees(), 90);
    a = a.rotate_cw();
    assert_eq!(a.degrees(), 180);
    a = a.rotate_cw();
    assert_eq!(a.degrees(), 270);
    a = a.rotate_cw();
    assert_eq!(a.degrees(), 0);
}

#[test]
fn rot_angle_ccw() {
    assert_eq!(RotAngle::zero().rotate_ccw().degrees(), 270);
}

#[test]
fn rot_angle_from_degrees_normalizes() {
    assert_eq!(RotAngle::from_degrees(540).degrees(), 180);
    assert_eq!(RotAngle::from_degrees(135).degrees(), 90);
}

#[test]
fn rot_angle_ccw_undoes_cw() {
    for d in [0u16, 90, 180, 270] {
        let a = RotAngle::from_degrees(d);
        assert_eq!(a.rotate_cw().rotate_ccw().degrees(), d);
        assert_eq!(a.rotate_ccw().rotate_cw().degrees(), d);
    }
    assert_eq!(RotAngle::default().degrees(), 0);
}

#[test]
fn terminal_statuses() {
    assert!(Status::Done.is_terminal());
    assert!(Status::Failed.is_terminal());
    assert!(Status::Canceled.is_terminal());
    assert!(!Status::Ready.is_terminal());
    assert!(!Status::Downloading.is_terminal());
}

#[test]
fn recoverable_statuses() {
    assert!(Status::NeedLogin.is_recoverable());
    assert!(Status::Failed.is_recoverable());
    assert!(!Status::Done.is_recoverable());
}

#[test]
fn status_groups_working() {
    assert_eq!(Status::Downloading.group(), StatusGroup::Working);
    assert_eq!(Status::Transcoding.group(), StatusGroup::Working);
    assert_eq!(Status::Merging.group(), StatusGroup::Working);
    assert_eq!(Status::PostProcessing.group(), StatusGroup::Working);
    assert_eq!(Status::Ready.group(), StatusGroup::Single(Status::Ready));
}

#[test]
fn status_labels_chinese() {
    assert_eq!(Status::Ready.label(), "已就绪");
    assert_eq!(Status::NeedLogin.label(), "需要登录");
    assert_eq!(Status::Probing.label(), "解析中");
}

#[test]
fn transition_probing_to_ready_ok() {
    assert_eq!(transition(Status::Probing, Status::Ready).unwrap(), Status::Ready);
}

#[test]
fn transition_download_to_postprocess_ok() {
    assert_eq!(
        transition(Status::Downloading, Status::PostProcessing).unwrap(),
        Status::PostProcessing
    );
}

#[test]
fn transition_transcode_to_done_ok() {
    assert_eq!(transition(Status::Transcoding, Status::Done).unwrap(), Status::Done);
}

#[test]
fn transition_merge_to_done_ok() {
    assert_eq!(transition(Status::Merging, Status::Done).unwrap(), Status::Done);
}

#[test]
fn transition_needlogin_to_probing_ok() {
    assert_eq!(transition(Status::NeedLogin, Status::Probing).unwrap(), Status::Probing);
}

#[test]
fn transition_failed_to_needlogin_ok() {
    assert_eq!(transition(Status::Failed, Status::NeedLogin).unwrap(), Status::NeedLogin);
}

#[test]
fn transition_terminal_to_probing_for_retry() {
    assert_eq!(transition(Status::Failed, Status::Probing).unwrap(), Status::Probing);
    assert_eq!(transition(Status::Canceled, Status::Probing).unwrap(), Status::Probing);
    assert_eq!(transition(Status::Done, Status::Probing).unwrap(), Status::Probing);
}

#[test]
fn transition_done_to_transcoding_allowed() {
    assert_eq!(transition(Status::Done, Status::Transcoding).unwrap(), Status::Transcoding);
}

#[test]
fn transition_ready_to_probing_rejected() {
    assert!(transition(Status::Ready, Status::Probing).is_err());
}

#[test]
fn transition_probing_to_done_rejected() {
    assert!(transition(Status::Probing, Status::Done).is_err());
}

#[test]
fn transition_refusal_names_both_statuses() {
    match transition(Status::Ready, Status::Done) {
        Err(e) => {
            assert!(matches!(e, CoreError::InvalidTransition { from: Status::Ready, to: Status::Done }));
            assert_eq!(e.to_string(), "状态不允许：已就绪 → 已完成");
        }
        Ok(s) => panic!("{:?}", s),
    }
    for s in [
        Status::Probing,
        Status::Ready,
        Status::Downloading,
        Status::PostProcessing,
        Status::Transcoding,
        Status::Merging,
        Status::Done,
        Status::Failed,
        Status::Canceled,
        Status::NeedLogin,
    ] {
        assert!(transition(s, s).is_err());
    }
}

#[test]
fn human_size_formats() {
    assert_eq!(human_size(1024), "1.0KB");
    assert_eq!(human_size(1024 * 1024), "1.0MB");
    assert_eq!(human_size(35_651_584), "34.0MB");
    assert_eq!(human_size(2 * 1024 * 1024 * 1024), "2.0GB");
    assert_eq!(human_size(512), "512B");
}

#[test]
fn human_size_matches_float_rounding() {
    for b in [1023u64, 1280, 1536, 1075, 1076, 5_242_880, 123_456_789, 1_073_741_823] {
        let f = b as f64;
        let want = if f >= 1073741824.0 {
            format!("{:.1}GB", f / 1073741824.0)
        } else if f >= 1048576.0 {
            format!("{:.1}MB", f / 1048576.0)
        } else if f >= 1024.0 {
            format!("{:.1}KB", f / 1024.0)
        } else {
            format!("{}B", b)
        };
        assert_eq!(human_size(b), want, "{}", b);
    }
}

#[test]
fn item_kind_download_source() {
    assert!(ItemKind::UrlTask.is_download_source());
    assert!(!ItemKind::LocalFile.is_download_source());
    assert!(!ItemKind::TranscodeOut.is_download_source());
}

#[test]
fn log_keeps_last_300_lines() {
    let mut log: VecDeque<String> = VecDeque::new();
    for i in 0..320 {
        push_log(&mut log, format!("line {}", i));
    }
    assert_eq!(log.len(), 300);
    assert_eq!(log.front().map(String::as_str), Some("line 20"));
    assert_eq!(log.back().map(String::as_str), Some("line 319"));
}

#[test]
fn subline_url_uses_site_prefix() {
    let s = subline(
        &Some("https://x.com/status/123".into()),
        &Some("X/Twitter".into()),
        &None,
    );
    assert_eq!(s, "X/Twitter · https://x.com/status/123");
    assert_eq!(subline(&Some("u".into()), &None, &None), "站点 · u");
}

#[test]
fn subline_path_uses_local_prefix() {
    assert_eq!(subline(&None, &None, &Some("/tmp/a.mp4".into())), "本地文件 · /tmp/a.mp4");
    assert_eq!(subline(&None, &None, &None), "");
}

#[test]
fn quality_line_renders_11_fields() {
    let q = ytdlp_core::model::QualityFields {
        container: Some("MP4".into()),
        height: Some(2160),
        vcodec: Some("HEVC".into()),
        vbitrate_kbps: Some(12000),
        fps_text: Some(format!("{:.0}", 60.0f64)),
        acodec: Some("AAC".into()),
        abitrate_kbps: Some(320),
        audio_tracks: Some(2),
        volume_text: Some(format!("{:.1}", -8.2f32)),
        duration_mmss: Some(((332.0f64 / 60.0) as u64, (332.0f64 as u64) % 60)),
        size_bytes: Some(35_651_584),
    };
    assert_eq!(
        ytdlp_core::model::quality_text(&q),
        "MP4 · 2160P · HEVC · 12Mbps · 60fps · AAC · 320k · 2轨 · -8.2dB · 05:32 · 34.0MB"
    );
}

#[test]
fn quality_line_empty_meta() {
    let q = ytdlp_core::model::QualityFields {
        container: None,
        height: None,
        vcodec: None,
        vbitrate_kbps: None,
        fps_text: None,
        acodec: None,
        abitrate_kbps: None,
        audio_tracks: None,
        volume_text: None,
        duration_mmss: None,
        size_bytes: None,
    };
    assert_eq!(ytdlp_core::model::quality_text(&q), "");
}
