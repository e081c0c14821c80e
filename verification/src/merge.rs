//! Joining several videos in order. When all inputs share their coding
//! parameters they are concatenated without re-encoding; otherwise each is
//! first transcoded to common parameters, then the parts are concatenated.
use vstd::prelude::*;

use crate::error::{CoreError, IoErrorKind};
use crate::paths::{join, join_path};
use crate::text::{
    chars_of, dec, dec_pad, lits, owned, push_arg, push_dec, push_dec_pad, push_lit, push_str,
    views,
};
use crate::transcode::{
    container_ext, free_output_path, output_agrees, pick_encoder, sanitize_filename,
    spec_container_ext, spec_free_output, spec_pick_encoder, spec_sanitize,
};

verus! {

/// A merge job, configured in the merge panel.
#[derive(Debug, Clone)]
pub struct MergeParams {
    pub inputs: Vec<String>,
    pub out_dir: String,
    /// Output name (editable; 合并_<date> by default).
    pub filename: String,
    /// `mp4` or `mkv`.
    pub container: String,
    /// `auto`, `libx265`, `nvenc` or `amf`.
    pub encoder_mode: String,
    pub low_power: bool,
    /// `auto_inc` or `skip`.
    pub collision_policy: String,
}

impl MergeParams {
    /// Extension of the output file.
    pub fn extension(&self) -> (r: &'static str)
        ensures
            r@ == spec_container_ext(self.container@),
    {
        container_ext(self.container.as_str())
    }
}

/// Output path: the cleaned file name with the container's extension, made
/// collision-safe against the paths that already exist.
pub fn output_path(params: &MergeParams, existing: &Vec<String>) -> (r: Result<String, CoreError>)
    ensures
        output_agrees(
            r,
            spec_free_output(
                params.out_dir@,
                spec_sanitize(params.filename@),
                spec_container_ext(params.container@),
                params.collision_policy@,
                existing@,
            ),
        ),
{
    let base = sanitize_filename(params.filename.as_str());
    let ext = params.extension();
    free_output_path(
        params.out_dir.as_str(),
        base.as_str(),
        ext,
        params.collision_policy.as_str(),
        existing,
    )
}

/// Encoder for re-encoded parts: explicit libx265/nvenc/amf are kept and
/// `auto` falls back to libx265 (no hardware probe for merging).
pub fn encoder_args(mode: &str, low_power: bool) -> (r: (String, Vec<String>))
    ensures
        (r.0@, views(r.1@)) == spec_pick_encoder(mode@, low_power, false),
{
    pick_encoder(mode, low_power, false)
}

// ---------------------------------------------------------------------------
// Parameter comparison

/// The coding parameters of an input that decide whether it can be
/// concatenated as is. The frame rate is kept in hundredths of a frame per
/// second, rounded.
#[derive(Debug, Clone)]
pub struct StreamParams {
    pub vcodec: Option<String>,
    pub height: Option<u32>,
    pub fps_centi: Option<i64>,
    /// Video stream extradata (SPS/PPS), hex.
    pub extradata: Option<String>,
    pub acodec: Option<String>,
    pub sample_rate: Option<u32>,
}

pub open spec fn opt_text(o: Option<String>) -> Option<Seq<char>> {
    match o {
        Some(s) => Some(s@),
        None => None,
    }
}

/// Two inputs have the same video (codec, height, frame rate, extradata)
/// and audio (codec, sample rate) parameters.
pub open spec fn same_stream(a: StreamParams, b: StreamParams) -> bool {
    &&& opt_text(a.vcodec) == opt_text(b.vcodec)
    &&& a.height == b.height
    &&& a.fps_centi == b.fps_centi
    &&& opt_text(a.extradata) == opt_text(b.extradata)
    &&& opt_text(a.acodec) == opt_text(b.acodec)
    &&& a.sample_rate == b.sample_rate
}

/// At least two inputs, all with the parameters of the first.
pub open spec fn spec_same_parameters(metas: Seq<StreamParams>) -> bool {
    metas.len() >= 2 && forall|i: int| 0 <= i < metas.len() ==> same_stream(#[trigger] metas[i], metas[0])
}

fn same_text(a: &Option<String>, b: &Option<String>) -> (r: bool)
    ensures
        r == (opt_text(*a) == opt_text(*b)),
{
    match (a, b) {
        (Some(x), Some(y)) => {
            let xv = chars_of(x.as_str());
            let yv = chars_of(y.as_str());
            crate::text::chars_eq(&xv, &yv)
        },
        (None, None) => true,
        _ => false,
    }
}

fn same_stream_exec(a: &StreamParams, b: &StreamParams) -> (r: bool)
    ensures
        r == same_stream(*a, *b),
{
    same_text(&a.vcodec, &b.vcodec) && a.height == b.height && a.fps_centi == b.fps_centi
        && same_text(&a.extradata, &b.extradata) && same_text(&a.acodec, &b.acodec)
        && a.sample_rate == b.sample_rate
}

/// Whether the inputs can be concatenated without re-encoding.
pub fn same_parameters(metas: &Vec<StreamParams>) -> (r: bool)
    ensures
        r == spec_same_parameters(metas@),
{
    if metas.len() < 2 {
        return false;
    }
    for i in 0..metas.len()
        invariant
            metas.len() >= 2,
            forall|k: int| 0 <= k < i ==> same_stream(#[trigger] metas@[k], metas@[0]),
    {
        if !same_stream_exec(&metas[i], &metas[0]) {
            return false;
        }
    }
    true
}

/// Height the parts are scaled to: the largest known height, 1080 when
/// none is known.
pub open spec fn spec_target_height(heights: Seq<Option<u32>>) -> int
    decreases heights.len(),
{
    if heights.len() == 0 {
        1080
    } else {
        let rest = spec_target_height(heights.drop_last());
        match heights.last() {
            Some(h) => if spec_any_height(heights.drop_last()) && rest >= h {
                rest
            } else {
                h as int
            },
            None => rest,
        }
    }
}

/// Some height is known.
pub open spec fn spec_any_height(heights: Seq<Option<u32>>) -> bool {
    exists|i: int| 0 <= i < heights.len() && heights[i] is Some
}

/// The parts are re-encoded to the largest known input height: it is at
/// least every known height and equal to one of them, and 1080 when no
/// height is known.
pub proof fn law_target_height_is_max(heights: Seq<Option<u32>>)
    ensures
        forall|i: int|
            0 <= i < heights.len() && #[trigger] heights[i] is Some ==> heights[i]->0 <= spec_target_height(heights),
        (exists|i: int| 0 <= i < heights.len() && #[trigger] heights[i] is Some) ==> exists|i: int|
            0 <= i < heights.len() && #[trigger] heights[i] == Some(spec_target_height(heights) as u32)
                && spec_target_height(heights) == heights[i]->0 as int,
        (forall|i: int| 0 <= i < heights.len() ==> #[trigger] heights[i] is None) ==> spec_target_height(heights)
            == 1080,
    decreases heights.len(),
{
    if heights.len() > 0 {
        let pre = heights.drop_last();
        law_target_height_is_max(pre);
        let n = heights.len() - 1;
        assert forall|i: int| 0 <= i < n implies heights[i] == pre[i] by {}
        if spec_any_height(pre) {
            let k = choose|k: int| 0 <= k < pre.len() && pre[k] is Some;
            assert(pre[k] is Some);
        } else {
            assert forall|i: int| 0 <= i < pre.len() implies #[trigger] pre[i] is None by {
                if pre[i] is Some {
                    assert(spec_any_height(pre));
                }
            }
        }
        if heights[n] is Some {
            assert(heights.last() == heights[n]);
        }
        if exists|i: int| 0 <= i < heights.len() && #[trigger] heights[i] is Some {
            if heights[n] is None {
                let k = choose|k: int| 0 <= k < heights.len() && #[trigger] heights[k] is Some;
                assert(pre[k] is Some);
            }
        }
    }
}

/// Target height of the re-encoded parts.
pub fn target_height(heights: &Vec<Option<u32>>) -> (r: u32)
    ensures
        r == spec_target_height(heights@),
{
    let mut best: Option<u32> = None;
    for i in 0..heights.len()
        invariant
            best is Some <==> spec_any_height(heights@.take(i as int)),
            best is Some ==> best->0 == spec_target_height(heights@.take(i as int)),
            best is None ==> spec_target_height(heights@.take(i as int)) == 1080,
    {
        let ghost pre = heights@.take(i as int);
        let ghost next = heights@.take(i + 1);
        assert(next.drop_last() =~= pre);
        assert(next.last() == heights@[i as int]);
        match heights[i] {
            Some(h) => {
                best = match best {
                    Some(b) => if b >= h {
                        Some(b)
                    } else {
                        Some(h)
                    },
                    None => Some(h),
                };
                assert(next[i as int] is Some);
            },
            None => {
                assert forall|k: int| 0 <= k < next.len() && next[k] is Some implies 0 <= k < pre.len()
                    && pre[k] is Some by {
                    assert(k != i);
                }
                assert forall|k: int| 0 <= k < pre.len() && pre[k] is Some implies 0 <= k < next.len()
                    && next[k] is Some by {
                    assert(next[k] == pre[k]);
                }
            },
        }
        proof {
            if spec_any_height(pre) {
                let k = choose|k: int| 0 <= k < pre.len() && pre[k] is Some;
                assert(next[k] == pre[k]);
            }
            if heights@[i as int] is None && spec_any_height(next) {
                let k = choose|k: int| 0 <= k < next.len() && next[k] is Some;
                assert(pre[k] == next[k]);
            }
        }
    }
    assert(heights@.take(heights.len() as int) =~= heights@);
    match best {
        Some(b) => b,
        None => 1080,
    }
}

// ---------------------------------------------------------------------------
// Concat list and ffmpeg arguments

/// A path with each `'` written as `'\''` (quoting inside a concat list).
pub open spec fn escape_quotes(s: Seq<char>) -> Seq<char>
    decreases s.len(),
{
    if s.len() == 0 {
        seq![]
    } else {
        escape_quotes(s.drop_last()) + if s.last() == '\'' {
            seq!['\'', '\\', '\'', '\'']
        } else {
            seq![s.last()]
        }
    }
}

/// The concat demuxer's list: one `file '<path>'` line per input.
pub open spec fn spec_concat_list(inputs: Seq<Seq<char>>) -> Seq<char>
    decreases inputs.len(),
{
    if inputs.len() == 0 {
        seq![]
    } else {
        spec_concat_list(inputs.drop_last()) + "file '"@ + escape_quotes(inputs.last()) + "'\n"@
    }
}

fn push_escaped(out: &mut String, s: &str)
    ensures
        final(out)@ == old(out)@ + escape_quotes(s@),
{
    let v = chars_of(s);
    let ghost base = out@;
    for i in 0..v.len()
        invariant
            v@ == s@,
            out@ == base + escape_quotes(v@.take(i as int)),
    {
        let ghost pre = v@.take(i as int);
        assert(v@.take(i + 1).drop_last() =~= pre);
        if v[i] == '\'' {
            out.push('\'');
            out.push('\\');
            out.push('\'');
            out.push('\'');
        } else {
            out.push(v[i]);
        }
        assert(out@ =~= base + escape_quotes(v@.take(i + 1)));
    }
    assert(v@.take(v.len() as int) =~= v@);
}

/// Content of the concat list for the given paths.
pub fn concat_list(inputs: &Vec<String>) -> (r: String)
    ensures
        r@ == spec_concat_list(views(inputs@)),
{
    let mut out = String::new();
    let ghost all = views(inputs@);
    for i in 0..inputs.len()
        invariant
            all == views(inputs@),
            out@ == spec_concat_list(all.take(i as int)),
    {
        proof {
            assert(all.take(i + 1).drop_last() =~= all.take(i as int));
            assert(all.take(i + 1).last() == inputs@[i as int]@);
        }
        push_str(&mut out, "file '");
        push_escaped(&mut out, inputs[i].as_str());
        push_str(&mut out, "'\n");
    }
    assert(all.take(inputs.len() as int) =~= all);
    out
}

/// ffmpeg arguments of the concat step: stream copy from the list file to
/// `out`, `+faststart` for MP4, machine-readable progress.
pub open spec fn spec_concat_args(list_file: Seq<char>, out: Seq<char>, container: Seq<char>) -> Seq<Seq<char>> {
    seq![
        "-hide_banner"@, "-f"@, "concat"@, "-safe"@, "0"@, "-i"@, list_file, "-c"@, "copy"@,
        "-map_metadata"@, "0"@,
    ] + (if container == "mp4"@ {
        seq!["-movflags"@, "+faststart"@]
    } else {
        seq![]
    }) + seq!["-y"@, "-progress"@, "pipe:1"@, "-nostats"@, "-loglevel"@, "error"@, out]
}

/// Arguments of the concat step.
pub fn concat_args(list_file: &str, out: &str, container: &str) -> (r: Vec<String>)
    ensures
        views(r@) == spec_concat_args(list_file@, out@, container@),
{
    let mut args = lits(
        &["-hide_banner", "-f", "concat", "-safe", "0", "-i", list_file, "-c", "copy", "-map_metadata", "0"],
    );
    let ghost s1 = views(args@);
    if crate::text::str_is(container, "mp4") {
        push_lit(&mut args, "-movflags");
        push_lit(&mut args, "+faststart");
    }
    let ghost s2 = views(args@);
    push_lit(&mut args, "-y");
    push_lit(&mut args, "-progress");
    push_lit(&mut args, "pipe:1");
    push_lit(&mut args, "-nostats");
    push_lit(&mut args, "-loglevel");
    push_lit(&mut args, "error");
    push_lit(&mut args, out);
    proof {
        assert(s1 =~= seq![
            "-hide_banner"@, "-f"@, "concat"@, "-safe"@, "0"@, "-i"@, list_file@, "-c"@, "copy"@,
            "-map_metadata"@, "0"@,
        ]);
        assert(s2 =~= s1 + (if container@ == "mp4"@ {
            seq!["-movflags"@, "+faststart"@]
        } else {
            seq![]
        }));
        assert(views(args@) =~= spec_concat_args(list_file@, out@, container@));
    }
    args
}

/// Scale filter of a re-encoded part: the target height (1080 when it is 0),
/// width following the aspect ratio.
pub open spec fn spec_segment_scale(target_h: u32) -> Seq<char> {
    "scale=-2:"@ + dec((if target_h > 0 { target_h } else { 1080 }) as nat)
        + ":force_original_aspect_ratio=decrease"@
}

/// ffmpeg arguments that re-encode one input to the common parameters:
/// H.265 with the chosen encoder (tagged `hvc1` for libx265), scaled to the
/// target height, AAC 48 kHz stereo, MP4 with `+faststart`.
pub open spec fn spec_segment_args(
    input: Seq<char>,
    out: Seq<char>,
    mode: Seq<char>,
    low_power: bool,
    target_h: u32,
) -> Seq<Seq<char>> {
    let (enc, eargs) = spec_pick_encoder(mode, low_power, false);
    seq!["-hide_banner"@, "-i"@, input, "-map"@, "0:v:0"@, "-map"@, "0:a?"@, "-vf"@, spec_segment_scale(target_h), "-c:v"@, enc]
        + eargs + (if enc == "libx265"@ {
        seq!["-tag:v"@, "hvc1"@]
    } else {
        seq![]
    }) + seq![
        "-c:a"@, "aac"@, "-ar"@, "48000"@, "-ac"@, "2"@, "-map_metadata"@, "0"@, "-movflags"@,
        "+faststart"@, "-y"@, "-progress"@, "pipe:1"@, "-nostats"@, "-loglevel"@, "error"@, out,
    ]
}

/// Arguments that re-encode one part.
pub fn segment_args(input: &str, out: &str, mode: &str, low_power: bool, target_h: u32) -> (r: Vec<String>)
    ensures
        views(r@) == spec_segment_args(input@, out@, mode@, low_power, target_h),
{
    let (enc, eargs) = encoder_args(mode, low_power);
    let mut scale = owned("scale=-2:");
    push_dec(&mut scale, (if target_h > 0 { target_h } else { 1080 }) as u64);
    push_str(&mut scale, ":force_original_aspect_ratio=decrease");
    let is_x265 = crate::text::str_is(enc.as_str(), "libx265");
    let mut args = lits(&["-hide_banner", "-i", input, "-map", "0:v:0", "-map", "0:a?", "-vf"]);
    push_arg(&mut args, scale);
    push_lit(&mut args, "-c:v");
    push_arg(&mut args, enc);
    let ghost s1 = views(args@);
    let ghost e = views(eargs@);
    let mut k: usize = 0;
    while k < eargs.len()
        invariant
            k <= eargs.len(),
            e == views(eargs@),
            views(args@) == s1 + e.take(k as int),
        decreases eargs.len() - k,
    {
        push_arg(&mut args, eargs[k].clone());
        proof {
            assert(e.take(k + 1) =~= e.take(k as int).push(e[k as int]));
        }
        k = k + 1;
    }
    assert(e.take(eargs.len() as int) =~= e);
    let ghost s2 = views(args@);
    if is_x265 {
        push_lit(&mut args, "-tag:v");
        push_lit(&mut args, "hvc1");
    }
    let ghost s3 = views(args@);
    let tail = lits(
        &[
            "-c:a",
            "aac",
            "-ar",
            "48000",
            "-ac",
            "2",
            "-map_metadata",
            "0",
            "-movflags",
            "+faststart",
            "-y",
            "-progress",
            "pipe:1",
            "-nostats",
            "-loglevel",
            "error",
            out,
        ],
    );
    let ghost t = views(tail@);
    let mut j: usize = 0;
    while j < tail.len()
        invariant
            j <= tail.len(),
            t == views(tail@),
            views(args@) == s3 + t.take(j as int),
        decreases tail.len() - j,
    {
        push_arg(&mut args, tail[j].clone());
        proof {
            assert(t.take(j + 1) =~= t.take(j as int).push(t[j as int]));
        }
        j = j + 1;
    }
    assert(t.take(tail.len() as int) =~= t);
    proof {
        let (se, sargs) = spec_pick_encoder(mode@, low_power, false);
        assert(s3 =~= s2 + (if se == "libx265"@ {
            seq!["-tag:v"@, "hvc1"@]
        } else {
            seq![]
        }));
        assert(views(args@) =~= spec_segment_args(input@, out@, mode@, low_power, target_h));
    }
    args
}

/// Name of the `i`-th re-encoded part (`seg_00.mp4`, `seg_01.mp4`, …).
pub open spec fn spec_segment_name(i: nat) -> Seq<char> {
    "seg_"@ + dec_pad(i, 2) + ".mp4"@
}

/// Name of the `i`-th re-encoded part.
pub fn segment_name(i: u64) -> (r: String)
    ensures
        r@ == spec_segment_name(i as nat),
{
    let mut s = owned("seg_");
    push_dec_pad(&mut s, i, 2);
    push_str(&mut s, ".mp4");
    s
}

/// A fresh random task id. Trusted: `uuid::Uuid::new_v4().to_string()`,
/// the hyphenated 36-character form.
#[verifier::external_body]
fn new_task_id() -> (r: String)
    ensures
        r@.len() == 36,
{
    uuid::Uuid::new_v4().to_string()
}

/// The job's private temporary directory: `<out_dir>/temp/merge_<id>`.
pub open spec fn spec_merge_temp_dir(out_dir: Seq<char>, id: Seq<char>) -> Seq<char> {
    join(join(out_dir, "temp"@), "merge_"@ + id)
}

/// A new private temporary directory for a merge job.
pub fn merge_temp_dir(out_dir: &str) -> (r: String)
    ensures
        exists|id: Seq<char>| id.len() == 36 && r@ == spec_merge_temp_dir(out_dir@, id),
{
    let id = new_task_id();
    let t = join_path(out_dir, "temp");
    let mut name = owned("merge_");
    push_str(&mut name, id.as_str());
    join_path(t.as_str(), name.as_str())
}

// ---------------------------------------------------------------------------
// The plan of a merge

/// One ffmpeg run of a merge.
#[derive(Debug, Clone)]
pub struct MergeStep {
    pub args: Vec<String>,
}

/// What a merge does: the ffmpeg runs in order, the concat list to write
/// first (at `list_file`), the output and the temporary directory.
#[derive(Debug, Clone)]
pub struct MergePlan {
    pub out: String,
    pub temp_dir: String,
    pub list_file: String,
    pub list_content: String,
    /// Whether the inputs are concatenated as they are.
    pub direct: bool,
    /// Re-encoded parts (empty when `direct`).
    pub segments: Vec<String>,
    pub steps: Vec<MergeStep>,
}

/// The paths of the re-encoded parts.
pub open spec fn spec_segments(temp_dir: Seq<char>, n: nat) -> Seq<Seq<char>> {
    Seq::new(n, |i: int| join(temp_dir, spec_segment_name(i as nat)))
}

pub open spec fn step_views(steps: Seq<MergeStep>) -> Seq<Seq<Seq<char>>> {
    steps.map_values(|s: MergeStep| views(s.args@))
}

/// The steps of a merge: the concat step alone when the inputs share their
/// parameters; otherwise one re-encoding step per input into its part, then
/// the concat step over the parts.
pub open spec fn spec_merge_steps(
    p: MergeParams,
    same: bool,
    target_h: u32,
    out: Seq<char>,
    temp_dir: Seq<char>,
) -> Seq<Seq<Seq<char>>> {
    let list = join(temp_dir, "list.txt"@);
    let segs = spec_segments(temp_dir, p.inputs@.len());
    if same {
        seq![spec_concat_args(list, out, p.container@)]
    } else {
        Seq::new(
            p.inputs@.len(),
            |i: int| spec_segment_args(p.inputs@[i]@, segs[i], p.encoder_mode@, p.low_power, target_h),
        ).push(spec_concat_args(list, out, p.container@))
    }
}

/// Plans a merge from the inputs' parameters, the paths that exist and the
/// temporary directory: fewer than two inputs is an error, as is an
/// output path that cannot be had.
pub fn plan_merge(
    p: &MergeParams,
    metas: &Vec<StreamParams>,
    existing: &Vec<String>,
    temp_dir: &str,
) -> (r: Result<MergePlan, CoreError>)
    requires
        metas@.len() == p.inputs@.len(),
    ensures
        p.inputs@.len() < 2 ==> (r matches Err(CoreError::Io(IoErrorKind::Other, m)) && m@
            == "合并至少需要 2 个输入"@),
        p.inputs@.len() >= 2 ==> match r {
            Ok(plan) => {
                &&& spec_free_output(
                    p.out_dir@,
                    spec_sanitize(p.filename@),
                    spec_container_ext(p.container@),
                    p.collision_policy@,
                    existing@,
                ) == Ok::<Seq<char>, Seq<char>>(plan.out@)
                &&& plan.temp_dir@ == temp_dir@
                &&& plan.list_file@ == join(temp_dir@, "list.txt"@)
                &&& plan.direct == spec_same_parameters(metas@)
                &&& views(plan.segments@) == (if plan.direct {
                    Seq::empty()
                } else {
                    spec_segments(temp_dir@, p.inputs@.len())
                })
                &&& plan.list_content@ == spec_concat_list(
                    if plan.direct { views(p.inputs@) } else { views(plan.segments@) },
                )
                &&& step_views(plan.steps@) == spec_merge_steps(
                    *p,
                    plan.direct,
                    spec_target_height(metas@.map_values(|m: StreamParams| m.height)) as u32,
                    plan.out@,
                    temp_dir@,
                )
            },
            Err(e) => output_agrees(
                Err(e),
                spec_free_output(
                    p.out_dir@,
                    spec_sanitize(p.filename@),
                    spec_container_ext(p.container@),
                    p.collision_policy@,
                    existing@,
                ),
            ),
        },
{
    if p.inputs.len() < 2 {
        return Err(CoreError::Io(IoErrorKind::Other, owned("合并至少需要 2 个输入")));
    }
    let out = match output_path(p, existing) {
        Ok(o) => o,
        Err(e) => {
            return Err(e);
        },
    };
    let direct = same_parameters(metas);
    let list_file = join_path(temp_dir, "list.txt");
    let mut steps: Vec<MergeStep> = Vec::new();
    let mut segments: Vec<String> = Vec::new();
    let list_content;
    if direct {
        list_content = concat_list(&p.inputs);
        let a = concat_args(list_file.as_str(), out.as_str(), p.container.as_str());
        steps.push(MergeStep { args: a });
        assert(step_views(steps@) =~= seq![spec_concat_args(list_file@, out@, p.container@)]);
        assert(views(segments@) =~= Seq::<Seq<char>>::empty());
    } else {
        let mut heights: Vec<Option<u32>> = Vec::new();
        for i in 0..metas.len()
            invariant
                heights@ =~= metas@.take(i as int).map_values(|m: StreamParams| m.height),
        {
            heights.push(metas[i].height);
            assert(metas@.take(i + 1).map_values(|m: StreamParams| m.height) =~= metas@.take(
                i as int,
            ).map_values(|m: StreamParams| m.height).push(metas@[i as int].height));
        }
        assert(metas@.take(metas.len() as int) =~= metas@);
        let th = target_height(&heights);
        let ghost segs = spec_segments(temp_dir@, p.inputs@.len());
        let ghost want = Seq::new(
            p.inputs@.len(),
            |i: int| spec_segment_args(p.inputs@[i]@, segs[i], p.encoder_mode@, p.low_power, th),
        );
        for i in 0..p.inputs.len()
            invariant
                segs == spec_segments(temp_dir@, p.inputs@.len()),
                want == Seq::new(
                    p.inputs@.len(),
                    |i: int| spec_segment_args(p.inputs@[i]@, segs[i], p.encoder_mode@, p.low_power, th),
                ),
                views(segments@) =~= segs.take(i as int),
                step_views(steps@) =~= want.take(i as int),
        {
            let name = segment_name(i as u64);
            let seg = join_path(temp_dir, name.as_str());
            let a = segment_args(
                p.inputs[i].as_str(),
                seg.as_str(),
                p.encoder_mode.as_str(),
                p.low_power,
                th,
            );
            let ghost sv = views(segments@);
            let ghost st = step_views(steps@);
            segments.push(seg);
            steps.push(MergeStep { args: a });
            proof {
                assert(views(segments@) =~= sv.push(segs[i as int]));
                assert(segs.take(i + 1) =~= segs.take(i as int).push(segs[i as int]));
                assert(step_views(steps@) =~= st.push(want[i as int]));
                assert(want.take(i + 1) =~= want.take(i as int).push(want[i as int]));
            }
        }
        assert(segs.take(p.inputs.len() as int) =~= segs);
        assert(want.take(p.inputs.len() as int) =~= want);
        list_content = concat_list(&segments);
        let a = concat_args(list_file.as_str(), out.as_str(), p.container.as_str());
        let ghost st = step_views(steps@);
        steps.push(MergeStep { args: a });
        assert(step_views(steps@) =~= st.push(spec_concat_args(list_file@, out@, p.container@)));
    }
    Ok(
        MergePlan {
            out,
            temp_dir: owned(temp_dir),
            list_file,
            list_content,
            direct,
            segments,
            steps,
        },
    )
}


/// Inputs that can be concatenated as they are agree pairwise on every
/// parameter.
pub proof fn law_same_parameters_pairwise(metas: Seq<StreamParams>, i: int, j: int)
    requires
        spec_same_parameters(metas),
        0 <= i < metas.len(),
        0 <= j < metas.len(),
    ensures
        same_stream(metas[i], metas[j]),
{
    assert(same_stream(metas[i], metas[0]));
    assert(same_stream(metas[j], metas[0]));
}

/// A single input, or none, is never concatenated directly.
pub proof fn law_same_parameters_needs_two(metas: Seq<StreamParams>)
    requires
        metas.len() < 2,
    ensures
        !spec_same_parameters(metas),
{
}

/// Number of `'` in a text.
pub open spec fn quote_count(s: Seq<char>) -> nat
    decreases s.len(),
{
    if s.len() == 0 {
        0
    } else {
        quote_count(s.drop_last()) + if s.last() == '\'' { 1nat } else { 0nat }
    }
}

/// Escaping only lengthens quotes (three characters more each), and a path
/// without quotes is written as it is.
pub proof fn law_escape_quotes(s: Seq<char>)
    ensures
        escape_quotes(s).len() == s.len() + 3 * quote_count(s),
        quote_count(s) == 0 ==> escape_quotes(s) == s,
    decreases s.len(),
{
    if s.len() > 0 {
        law_escape_quotes(s.drop_last());
        if quote_count(s) == 0 {
            assert(s =~= s.drop_last().push(s.last()));
        }
    }
}


/// A direct merge is one concat run; otherwise there is one re-encoding run
/// per input, then the concat run over the parts.
pub proof fn law_merge_steps_count(p: MergeParams, same: bool, target_h: u32, out: Seq<char>, temp_dir: Seq<char>)
    ensures
        same ==> spec_merge_steps(p, same, target_h, out, temp_dir).len() == 1,
        !same ==> spec_merge_steps(p, same, target_h, out, temp_dir).len() == p.inputs@.len() + 1,
        spec_merge_steps(p, same, target_h, out, temp_dir).last() == spec_concat_args(
            join(temp_dir, "list.txt"@),
            out,
            p.container@,
        ),
{
}

} // verus!
