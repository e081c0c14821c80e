use ytdlp_core::merge::{
    concat_args, concat_list, encoder_args, output_path, plan_merge, same_parameters,
    segment_args, segment_name, target_height, MergeParams, StreamParams,
};
use ytdlp_core::CoreError;

fn meta(vcodec: &str, h: u32, fps: f64, acodec: &str, sr: u32, ext: &str) -> StreamParams {
    StreamParams {
        vcodec: Some(vcodec.into()),
        height: Some(h),
        fps_centi: Some((fps * 100.0).round() as i64),
        extradata: Some(ext.into()),
        acodec: Some(acodec.into()),
        sample_rate: Some(sr),
    }
}

fn params(policy: &str, container: &str, filename: &str) -> MergeParams {
    MergeParams {
        inputs: vec![],
        out_dir: "/o".into(),
        filename: filename.into(),
        container: container.into(),
        encoder_mode: "auto".into(),
        low_power: false,
        collision_policy: policy.into(),
    }
}

#[test]
fn same_params_true_when_identical() {
    let ms = vec![
        meta("h264", 1080, 30.0, "aac", 48000, "aabb"),
        meta("h264", 1080, 30.0, "aac", 48000, "aabb"),
    ];
    assert!(same_parameters(&ms));
}

#[test]
fn same_params_false_on_extradata_diff() {
    let ms = vec![
        meta("h264", 1080, 30.0, "aac", 48000, "aabb"),
        meta("h264", 1080, 30.0, "aac", 48000, "ccdd"),
    ];
    assert!(!same_parameters(&ms));
}

#[test]
fn same_params_false_on_res_diff() {
    let ms = vec![
        meta("h264", 1080, 30.0, "aac", 48000, "aabb"),
        meta("h264", 720, 30.0, "aac", 48000, "aabb"),
    ];
    assert!(!same_parameters(&ms));
}

#[test]
fn same_params_false_on_sample_rate_diff() {
    let ms = vec![
        meta("h264", 1080, 30.0, "aac", 48000, "aabb"),
        meta("h264", 1080, 30.0, "aac", 44100, "aabb"),
    ];
    assert!(!same_parameters(&ms));
}

#[test]
fn same_params_needs_two_inputs() {
    assert!(!same_parameters(&vec![meta("h264", 1080, 30.0, "aac", 48000, "aabb")]));
}

#[test]
fn output_path_auto_inc() {
    let p = params("auto_inc", "mp4", "合并_20260917");
    let a = output_path(&p, &vec![]).unwrap();
    assert_eq!(a, "/o/合并_20260917.mp4");
    let b = output_path(&p, &vec![a]).unwrap();
    assert_eq!(b, "/o/合并_20260917 (1).mp4");
}

#[test]
fn output_path_skip() {
    let p = params("skip", "mkv", "合并_x");
    let a = output_path(&p, &vec![]).unwrap();
    assert!(output_path(&p, &vec![a]).is_err());
}

#[test]
fn concat_list_escapes_quote() {
    assert_eq!(concat_list(&vec!["a'b.mp4".to_string()]), "file 'a'\\''b.mp4'\n");
    assert_eq!(
        concat_list(&vec!["/x/1.mp4".to_string(), "/x/2.mp4".to_string()]),
        "file '/x/1.mp4'\nfile '/x/2.mp4'\n"
    );
}

#[test]
fn merge_arguments() {
    assert_eq!(
        concat_args("/t/list.txt", "/o/m.mp4", "mp4").join(" "),
        "-hide_banner -f concat -safe 0 -i /t/list.txt -c copy -map_metadata 0 -movflags +faststart -y -progress pipe:1 -nostats -loglevel error /o/m.mp4"
    );
    assert_eq!(
        segment_args("/v/a.mp4", "/t/seg_00.mp4", "auto", false, 0).join(" "),
        "-hide_banner -i /v/a.mp4 -map 0:v:0 -map 0:a? -vf scale=-2:1080:force_original_aspect_ratio=decrease -c:v libx265 -crf 23 -preset medium -tag:v hvc1 -c:a aac -ar 48000 -ac 2 -map_metadata 0 -movflags +faststart -y -progress pipe:1 -nostats -loglevel error /t/seg_00.mp4"
    );
    assert_eq!(segment_name(3), "seg_03.mp4");
    assert_eq!(segment_name(123), "seg_123.mp4");
    assert_eq!(encoder_args("amf", true).0, "hevc_amf");
    assert_eq!(target_height(&vec![None, Some(720), Some(1080), None]), 1080);
    assert_eq!(target_height(&vec![None]), 1080);
}

#[test]
fn merge_plan_direct_and_reencoded() {
    let mut p = params("auto_inc", "mp4", "m");
    p.inputs = vec!["/v/a.mp4".into(), "/v/b.mp4".into()];
    let same = vec![
        meta("h264", 1080, 30.0, "aac", 48000, "aa"),
        meta("h264", 1080, 30.0, "aac", 48000, "aa"),
    ];
    let plan = plan_merge(&p, &same, &vec![], "/o/temp/merge_1").unwrap();
    assert!(plan.direct);
    assert_eq!(plan.out, "/o/m.mp4");
    assert_eq!(plan.list_file, "/o/temp/merge_1/list.txt");
    assert_eq!(plan.list_content, "file '/v/a.mp4'\nfile '/v/b.mp4'\n");
    assert_eq!(plan.steps.len(), 1);

    let mixed = vec![
        meta("h264", 720, 30.0, "aac", 48000, "aa"),
        meta("hevc", 1080, 25.0, "aac", 44100, "bb"),
    ];
    let plan = plan_merge(&p, &mixed, &vec![], "/o/temp/merge_1").unwrap();
    assert!(!plan.direct);
    assert_eq!(plan.segments, vec!["/o/temp/merge_1/seg_00.mp4", "/o/temp/merge_1/seg_01.mp4"]);
    assert_eq!(plan.steps.len(), 3);
    assert!(plan.steps[0].args.join(" ").contains("scale=-2:1080:"));
    assert_eq!(
        plan.list_content,
        "file '/o/temp/merge_1/seg_00.mp4'\nfile '/o/temp/merge_1/seg_01.mp4'\n"
    );

    let mut one = params("auto_inc", "mp4", "m");
    one.inputs = vec!["/v/a.mp4".into()];
    match plan_merge(&one, &vec![meta("h264", 1, 1.0, "a", 1, "x")], &vec![], "/t") {
        Err(CoreError::Io(_, m)) => assert_eq!(m, "合并至少需要 2 个输入"),
        other => panic!("{:?}", other.map(|p| p.out)),
    }
}
