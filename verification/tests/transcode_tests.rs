use ytdlp_core::model::RotAngle;
use ytdlp_core::transcode::{
    apply_filename_template, build_args, build_vf, free_output_path, gain_cdb,
    parse_encoders_output, parse_out_time_us, out_time_in_range, pick_encoder, retry_with_libx265,
    sanitize_filename, stderr_summary, TranscodeParams,
};
use ytdlp_core::{CoreError, IoErrorKind};

fn mk() -> TranscodeParams {
    TranscodeParams {
        input: "x.mp4".into(),
        out_dir: "/o".into(),
        title: "t".into(),
        filename_template: "纯标题".into(),
        container: "mp4".into(),
        encoder_mode: "libx265".into(),
        low_power: false,
        max_w: 0,
        max_h: 0,
        brcap_kbps: None,
        normalize_audio: false,
        max_gain_cdb: 2400,
        rot_angle: RotAngle::zero(),
        keep_cover: true,
        collision_policy: "auto_inc".into(),
    }
}

#[test]
fn template_pure_title() {
    assert_eq!(apply_filename_template("纯标题", "a/b:c.mp4"), "a_b_c.mp4");
}

#[test]
fn template_date_prefix() {
    let s = apply_filename_template("日期-标题", "你好");
    assert!(s.starts_with("20") && s.contains('-') && s.ends_with("你好"), "{}", s);
}

#[test]
fn template_title_with_id() {
    let a = apply_filename_template("标题+ID", "t");
    let b = apply_filename_template("标题+ID", "t");
    assert_eq!(a, b);
    assert!(a.starts_with("t-"));
    assert_eq!(a.chars().count(), 2 + 8);
    assert!(a[2..].chars().all(|c| c.is_ascii_hexdigit() && !c.is_ascii_uppercase()));
    assert_eq!(apply_filename_template("UP主-标题", "x?"), "x_");
}

#[test]
fn sanitize_windows_chars() {
    assert_eq!(sanitize_filename("a<b>:c\"d/e\\f|g?h*i"), "a_b__c_d_e_f_g_h_i");
    assert_eq!(sanitize_filename("  "), "未命名");
    assert_eq!(sanitize_filename("abc."), "abc");
}

#[test]
fn sanitize_limits_length() {
    let long: String = std::iter::repeat('字').take(130).collect();
    assert_eq!(sanitize_filename(&long).chars().count(), 120);
    assert_eq!(sanitize_filename("a\u{1}b"), "a_b");
}

#[test]
fn output_collision_auto_inc() {
    let p = mk();
    let a = p.output_path(&vec![]).unwrap();
    assert_eq!(a, "/o/t.mp4");
    let b = p.output_path(&vec!["/o/t.mp4".to_string()]).unwrap();
    assert_eq!(b, "/o/t (1).mp4");
    let c = p.output_path(&vec!["/o/t.mp4".to_string(), "/o/t (1).mp4".to_string()]).unwrap();
    assert_eq!(c, "/o/t (2).mp4");
}

#[test]
fn output_collision_skip() {
    let p = TranscodeParams {
        container: "mkv".into(),
        collision_policy: "skip".into(),
        ..mk()
    };
    let a = p.output_path(&vec![]).unwrap();
    assert_eq!(a, "/o/t.mkv");
    match p.output_path(&vec![a.clone()]) {
        Err(CoreError::Io(_, m)) => assert_eq!(m, "输出已存在，按策略跳过：/o/t.mkv"),
        other => panic!("{:?}", other),
    }
}

#[test]
fn output_collision_exhausted() {
    let mut existing = vec!["/o/b.mp4".to_string()];
    for i in 1..1000 {
        existing.push(format!("/o/b ({}).mp4", i));
    }
    match free_output_path("/o", "b", "mp4", "auto_inc", &existing) {
        Err(CoreError::Io(_, m)) => assert_eq!(m, "无法生成不冲突的输出名"),
        other => panic!("{:?}", other),
    }
    existing.remove(500);
    assert_eq!(free_output_path("/o", "b", "mp4", "auto_inc", &existing).unwrap(), "/o/b (500).mp4");
}

#[test]
fn vf_rotate_and_scale() {
    assert_eq!(build_vf(RotAngle::zero(), 0, 0), None);
    let vf = build_vf(RotAngle::from_degrees(90), 1920, 1080).unwrap();
    assert!(vf.starts_with("transpose=1,"), "{}", vf);
    let vf = build_vf(RotAngle::from_degrees(270), 0, 0).unwrap();
    assert_eq!(vf, "transpose=2");
}

#[test]
fn vf_exact_texts() {
    assert_eq!(
        build_vf(RotAngle::from_degrees(90), 1920, 1080).unwrap(),
        "transpose=1,scale=min(iw,1920):min(ih,1080):force_original_aspect_ratio=decrease"
    );
    assert_eq!(
        build_vf(RotAngle::from_degrees(180), 0, 720).unwrap(),
        "transpose=1,transpose=1,scale=iw:min(ih,720):force_original_aspect_ratio=decrease"
    );
}

#[test]
fn parse_encoders_detects_hw() {
    let text = [
        " V....D hevc_qsv            HEVC (Intel Quick Sync Video acceleration)",
        " V....D hevc_nvenc          HEVC (NVIDIA NVENC)",
        " V....D libx265             libx265 H.265 / HEVC",
    ]
    .join("\n");
    let hw = parse_encoders_output(&text);
    assert!(hw.qsv && hw.nvenc && !hw.amf);
    assert!(!parse_encoders_output("V....D libx265").qsv);
}

#[test]
fn parse_us() {
    assert_eq!(parse_out_time_us("out_time_us=1234567"), Some(1234567));
    assert_eq!(parse_out_time_us("out_time_ms=999"), Some(999000));
    assert_eq!(parse_out_time_us("progress=end"), None);
    assert_eq!(parse_out_time_us("  out_time_us= 42 "), Some(42));
    assert_eq!(parse_out_time_us("out_time_us=N/A"), None);
    assert!(out_time_in_range("out_time_ms=999"));
    assert!(!out_time_in_range("out_time_ms=18446744073709551615"));
}

#[test]
fn encoder_choice() {
    let (e, a) = pick_encoder("auto", true, true);
    assert_eq!(e, "hevc_qsv");
    assert_eq!(a, vec!["-global_quality", "23", "-low_power", "1"]);
    let (e, _) = pick_encoder("auto", true, false);
    assert_eq!(e, "libx265");
    let (e, a) = pick_encoder("nvenc", false, true);
    assert_eq!(e, "hevc_nvenc");
    assert_eq!(a.join(" "), "-rc vbr -cq 23 -preset p5");
}

#[test]
fn transcode_args_full() {
    let p = TranscodeParams {
        input: "/v/in.mov".into(),
        brcap_kbps: Some(5000),
        normalize_audio: true,
        rot_angle: RotAngle::from_degrees(270),
        ..mk()
    };
    let args = build_args(&p, Some(-820), false);
    assert_eq!(
        args.join(" "),
        "-hide_banner -i /v/in.mov -map 0:v:0 -map 0:a? -map 0:t? -vf transpose=2 -c:v libx265 -crf 23 -preset medium -tag:v hvc1 -maxrate 5000k -bufsize 10000k -c:a -af volume=8.20dB aac -c:t copy -map_metadata 0 -movflags +faststart -f mp4 -y -progress pipe:1 -nostats -loglevel error"
    );
    let q = TranscodeParams { container: "mkv".into(), keep_cover: false, ..mk() };
    let args = build_args(&q, None, false);
    assert_eq!(
        args.join(" "),
        "-hide_banner -i x.mp4 -map 0:v:0 -map 0:a? -c:v libx265 -crf 23 -preset medium -c:a copy -map_metadata 0 -f matroska -y -progress pipe:1 -nostats -loglevel error"
    );
}

#[test]
fn gain_decision() {
    assert_eq!(gain_cdb(true, 2400, Some(-820)), Some(820));
    assert_eq!(gain_cdb(true, 2400, Some(-3000)), Some(2400));
    assert_eq!(gain_cdb(true, 2400, Some(-40)), None);
    assert_eq!(gain_cdb(true, 2400, Some(-10000)), None);
    assert_eq!(gain_cdb(false, 2400, Some(-820)), None);
}

#[test]
fn retry_and_stderr() {
    assert!(retry_with_libx265(&CoreError::Io(IoErrorKind::Other, "x".into()), "auto"));
    assert!(!retry_with_libx265(&CoreError::Cancelled, "auto"));
    assert!(!retry_with_libx265(&CoreError::Io(IoErrorKind::Other, "x".into()), "libx265"));
    assert_eq!(stderr_summary(" \n "), "（无错误输出）");
    assert_eq!(stderr_summary(" boom\n"), "boom");
}
