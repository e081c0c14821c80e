//! Transcoding to H.265 with ffmpeg: output naming, encoder choice, filter
//! chain, hardware encoder detection and progress parsing.
use vstd::prelude::*;

use crate::calendar::{date_of, spec_ymd_dashed, unix_now_secs, ymd_dashed};
use crate::error::{CoreError, IoErrorKind};
use crate::model::RotAngle;
use crate::paths::{join, join_path};
use std::hash::{Hash, Hasher};
use crate::text::{
    chars_of, contains, hex8, hex8_exec, is_char, is_ws, occurs_at, owned, parse_u64,
    parse_u64_exec, push_chars, push_dec, push_str, slice_chars, split_char, split_char_exec,
    starts_with, starts_with_exec, str_contains, str_is, string_of, strip_end, strip_start, trim, trim_chars,
    trim_end_matches_char, dec, dec_pad, dec_string, push_dec_pad, listed, listed_exec, lits, push_arg, push_lit, views,
};

verus! {

// ---------------------------------------------------------------------------
// File names

/// Characters that are not allowed in Windows file names, and control characters.
pub open spec fn is_bad_name_char(c: char) -> bool {
    c == '<' || c == '>' || c == ':' || c == '"' || c == '/' || c == '\\' || c == '|' || c == '?'
        || c == '*' || (c as u32) < 0x20
}

pub open spec fn replace_bad(s: Seq<char>) -> Seq<char> {
    s.map_values(|c: char| if is_bad_name_char(c) { '_' } else { c })
}

/// A safe file name: forbidden characters become `_`, surrounding whitespace
/// and trailing dots are removed, an empty result becomes `未命名`, and at most
/// 120 characters are kept.
pub open spec fn spec_sanitize(s: Seq<char>) -> Seq<char> {
    let t = strip_end(trim(replace_bad(s)), is_char('.'));
    if t.len() == 0 {
        "未命名"@
    } else if t.len() > 120 {
        t.take(120)
    } else {
        t
    }
}

fn is_bad_name_char_exec(c: char) -> (r: bool)
    ensures
        r == is_bad_name_char(c),
{
    c == '<' || c == '>' || c == ':' || c == '"' || c == '/' || c == '\\' || c == '|' || c == '?'
        || c == '*' || (c as u32) < 0x20
}

/// File name cleaning (Windows forbidden characters, trimming, length limit).
pub fn sanitize_filename(s: &str) -> (r: String)
    ensures
        r@ == spec_sanitize(s@),
{
    let v = chars_of(s);
    let mut m: Vec<char> = Vec::new();
    for i in 0..v.len()
        invariant
            v@ == s@,
            m@ == replace_bad(v@.take(i as int)),
    {
        let c = v[i];
        let d = if is_bad_name_char_exec(c) {
            '_'
        } else {
            c
        };
        m.push(d);
        assert(replace_bad(v@.take(i + 1)) =~= replace_bad(v@.take(i as int)).push(d));
    }
    assert(v@.take(v.len() as int) == v@);
    let t1 = trim_chars(&m);
    let t = trim_end_matches_char(&t1, '.');
    if t.len() == 0 {
        return owned("未命名");
    }
    if t.len() > 120 {
        let k = slice_chars(&t, 0, 120);
        assert(k@ == t@.take(120));
        return string_of(&k);
    }
    string_of(&t)
}

/// What `DefaultHasher` yields for a string (a fixed, unseeded hash).
pub uninterp spec fn default_hash(s: Seq<char>) -> u64;

/// Hash of a string with a fresh `std::hash::DefaultHasher`. Trusted: the
/// result is named by `default_hash` of the characters; nothing more is claimed.
#[verifier::external_body]
fn str_default_hash(s: &str) -> (r: u64)
    ensures
        r == default_hash(s@),
{
    let mut h = std::collections::hash_map::DefaultHasher::new();
    s.hash(&mut h);
    h.finish()
}

/// Short fingerprint of a title: low 32 bits of its hash in hex.
pub fn id_hint(title: &str) -> (r: String)
    ensures
        r@ == hex8(default_hash(title@)),
{
    hex8_exec(str_default_hash(title))
}

/// Today's date as `YYYY-MM-DD` (UTC).
pub fn today() -> (r: String)
    ensures
        exists|secs: u64, y: int, m: int, d: int|
            date_of(secs, y, m, d) && r@ == spec_ymd_dashed(y, m, d),
{
    let secs = unix_now_secs();
    ymd_dashed(secs)
}

/// Output name from a template: 标题+ID appends the title's fingerprint,
/// 日期-标题 prefixes today's date; otherwise the cleaned title.
pub open spec fn spec_template_name(tmpl: Seq<char>, title: Seq<char>, date: Seq<char>) -> Seq<char> {
    let t = spec_sanitize(title);
    if tmpl == "标题+ID"@ {
        t + seq!['-'] + hex8(default_hash(t))
    } else if tmpl == "日期-标题"@ {
        date + seq!['-'] + t
    } else {
        t
    }
}

/// Output base name for a title (download, transcode and merge share the templates).
pub fn apply_filename_template(tmpl: &str, title: &str) -> (r: String)
    ensures
        exists|secs: u64, y: int, m: int, d: int|
            date_of(secs, y, m, d) && r@ == spec_template_name(
                tmpl@,
                title@,
                spec_ymd_dashed(y, m, d),
            ),
{
    let t = sanitize_filename(title);
    if str_is(tmpl, "标题+ID") {
        let mut r = owned(t.as_str());
        r.push('-');
        let h = id_hint(t.as_str());
        push_str(&mut r, h.as_str());
        proof {
            let secs = 0u64;
            let (y, m, d) = (1970int, 1int, 1int);
            assert(date_of(secs, y, m, d));
        }
        r
    } else if str_is(tmpl, "日期-标题") {
        let mut r = today();
        r.push('-');
        push_str(&mut r, t.as_str());
        r
    } else {
        proof {
            let secs = 0u64;
            assert(date_of(secs, 1970, 1, 1));
        }
        t
    }
}

// ---------------------------------------------------------------------------
// Encoders

/// Encoder and its arguments: explicit libx265/nvenc/amf are kept; `auto`
/// (anything else) uses QSV when it is available, else libx265.
pub open spec fn spec_pick_encoder(mode: Seq<char>, low_power: bool, qsv: bool) -> (Seq<char>, Seq<Seq<char>>) {
    if mode == "libx265"@ {
        ("libx265"@, seq!["-crf"@, "23"@, "-preset"@, "medium"@])
    } else if mode == "nvenc"@ {
        ("hevc_nvenc"@, seq!["-rc"@, "vbr"@, "-cq"@, "23"@, "-preset"@, "p5"@])
    } else if mode == "amf"@ {
        ("hevc_amf"@, seq!["-qp_i"@, "23"@, "-qp_p"@, "23"@, "-quality"@, "balanced"@])
    } else if qsv {
        (
            "hevc_qsv"@,
            seq!["-global_quality"@, "23"@] + if low_power {
                seq!["-low_power"@, "1"@]
            } else {
                seq![]
            },
        )
    } else {
        ("libx265"@, seq!["-crf"@, "23"@, "-preset"@, "medium"@])
    }
}

/// Encoder choice; `qsv` says whether ffmpeg offers `hevc_qsv`.
pub fn pick_encoder(mode: &str, low_power: bool, qsv: bool) -> (r: (String, Vec<String>))
    ensures
        (r.0@, views(r.1@)) == spec_pick_encoder(mode@, low_power, qsv),
{
    if str_is(mode, "libx265") {
        let a = lits(&["-crf", "23", "-preset", "medium"]);
        assert(views(a@) =~= seq!["-crf"@, "23"@, "-preset"@, "medium"@]);
        (owned("libx265"), a)
    } else if str_is(mode, "nvenc") {
        let a = lits(&["-rc", "vbr", "-cq", "23", "-preset", "p5"]);
        assert(views(a@) =~= seq!["-rc"@, "vbr"@, "-cq"@, "23"@, "-preset"@, "p5"@]);
        (owned("hevc_nvenc"), a)
    } else if str_is(mode, "amf") {
        let a = lits(&["-qp_i", "23", "-qp_p", "23", "-quality", "balanced"]);
        assert(views(a@) =~= seq!["-qp_i"@, "23"@, "-qp_p"@, "23"@, "-quality"@, "balanced"@]);
        (owned("hevc_amf"), a)
    } else if qsv {
        if low_power {
            let a = lits(&["-global_quality", "23", "-low_power", "1"]);
            assert(views(a@) =~= seq!["-global_quality"@, "23"@] + seq!["-low_power"@, "1"@]);
            (owned("hevc_qsv"), a)
        } else {
            let a = lits(&["-global_quality", "23"]);
            assert(views(a@) =~= seq!["-global_quality"@, "23"@] + Seq::<Seq<char>>::empty());
            (owned("hevc_qsv"), a)
        }
    } else {
        let a = lits(&["-crf", "23", "-preset", "medium"]);
        assert(views(a@) =~= seq!["-crf"@, "23"@, "-preset"@, "medium"@]);
        (owned("libx265"), a)
    }
}

/// Hardware H.265 encoders offered by ffmpeg.
#[derive(Debug, Clone, Copy, Default, PartialEq, Eq, Structural)]
pub struct HwEncoders {
    pub qsv: bool,
    pub nvenc: bool,
    pub amf: bool,
}

/// Detection over lines: a line naming `hevc_qsv` marks QSV; otherwise one
/// naming `hevc_nvenc` marks NVENC; otherwise one naming `hevc_amf` marks AMF.
pub open spec fn spec_encoders(lines: Seq<Seq<char>>) -> HwEncoders {
    HwEncoders {
        qsv: exists|i: int| 0 <= i < lines.len() && contains(lines[i], "hevc_qsv"@),
        nvenc: exists|i: int|
            0 <= i < lines.len() && !contains(lines[i], "hevc_qsv"@) && contains(
                lines[i],
                "hevc_nvenc"@,
            ),
        amf: exists|i: int|
            0 <= i < lines.len() && !contains(lines[i], "hevc_qsv"@) && !contains(
                lines[i],
                "hevc_nvenc"@,
            ) && contains(lines[i], "hevc_amf"@),
    }
}

proof fn lemma_encoders_push(ls: Seq<Seq<char>>, l: Seq<char>)
    ensures
        spec_encoders(ls.push(l)) == (HwEncoders {
            qsv: spec_encoders(ls).qsv || contains(l, "hevc_qsv"@),
            nvenc: spec_encoders(ls).nvenc || (!contains(l, "hevc_qsv"@) && contains(
                l,
                "hevc_nvenc"@,
            )),
            amf: spec_encoders(ls).amf || (!contains(l, "hevc_qsv"@) && !contains(
                l,
                "hevc_nvenc"@,
            ) && contains(l, "hevc_amf"@)),
        }),
{
    let n = ls.push(l);
    let last = ls.len() as int;
    assert(n[last] == l);
    assert(forall|k: int| 0 <= k < ls.len() ==> n[k] == ls[k]);
    if spec_encoders(ls).qsv {
        let k = choose|k: int| 0 <= k < ls.len() && contains(ls[k], "hevc_qsv"@);
        assert(n[k] == ls[k]);
    }
    if spec_encoders(ls).nvenc {
        let k = choose|k: int|
            0 <= k < ls.len() && !contains(ls[k], "hevc_qsv"@) && contains(ls[k], "hevc_nvenc"@);
        assert(n[k] == ls[k]);
    }
    if spec_encoders(ls).amf {
        let k = choose|k: int|
            0 <= k < ls.len() && !contains(ls[k], "hevc_qsv"@) && !contains(ls[k], "hevc_nvenc"@)
                && contains(ls[k], "hevc_amf"@);
        assert(n[k] == ls[k]);
    }
}

/// Hardware encoders listed in the output of `ffmpeg -encoders`.
pub fn parse_encoders_output(text: &str) -> (r: HwEncoders)
    ensures
        r == spec_encoders(split_char(text@, '\n')),
{
    let v = chars_of(text);
    let lines = split_char_exec(&v, '\n');
    let ghost ls = split_char(text@, '\n');
    let mut hw = HwEncoders { qsv: false, nvenc: false, amf: false };
    for i in 0..lines.len()
        invariant
            ls == lines@.map_values(|v: Vec<char>| v@),
            hw == spec_encoders(ls.take(i as int)),
    {
        let ghost prev = ls.take(i as int);
        assert(lines@[i as int]@ == ls[i as int]);
        let q = str_contains(&lines[i], "hevc_qsv");
        if q {
            hw.qsv = true;
        } else {
            let nv = str_contains(&lines[i], "hevc_nvenc");
            if nv {
                hw.nvenc = true;
            } else if str_contains(&lines[i], "hevc_amf") {
                hw.amf = true;
            }
        }
        proof {
            let next = ls.take(i + 1);
            assert(next =~= prev.push(ls[i as int]));
            lemma_encoders_push(prev, ls[i as int]);
        }
    }
    assert(ls.take(lines.len() as int) == ls);
    hw
}

// ---------------------------------------------------------------------------
// Filters

pub open spec fn spec_rot_part(deg: int) -> Seq<Seq<char>> {
    if deg == 90 {
        seq!["transpose=1"@]
    } else if deg == 180 {
        seq!["transpose=1,transpose=1"@]
    } else if deg == 270 {
        seq!["transpose=2"@]
    } else {
        seq![]
    }
}

pub open spec fn spec_scale_part(max_w: u32, max_h: u32) -> Seq<Seq<char>> {
    if max_w > 0 || max_h > 0 {
        let w = if max_w > 0 {
            "min(iw,"@ + dec(max_w as nat) + ")"@
        } else {
            "iw"@
        };
        let h = if max_h > 0 {
            "min(ih,"@ + dec(max_h as nat) + ")"@
        } else {
            "ih"@
        };
        seq!["scale="@ + w + seq![':'] + h + ":force_original_aspect_ratio=decrease"@]
    } else {
        seq![]
    }
}

/// Pieces joined with `,`.
pub open spec fn join_comma(parts: Seq<Seq<char>>) -> Seq<char>
    decreases parts.len(),
{
    if parts.len() == 0 {
        Seq::empty()
    } else if parts.len() == 1 {
        parts[0]
    } else {
        join_comma(parts.drop_last()) + seq![','] + parts.last()
    }
}

/// Video filter chain: rotation (transpose) then the resolution limit
/// (never enlarging); `None` when there is nothing to do.
pub open spec fn spec_build_vf(deg: int, max_w: u32, max_h: u32) -> Option<Seq<char>> {
    let parts = spec_rot_part(deg) + spec_scale_part(max_w, max_h);
    if parts.len() == 0 {
        None
    } else {
        Some(join_comma(parts))
    }
}

fn scale_filter(max_w: u32, max_h: u32) -> (r: String)
    requires
        max_w > 0 || max_h > 0,
    ensures
        spec_scale_part(max_w, max_h) == seq![r@],
{
    let mut w = String::new();
    if max_w > 0 {
        push_str(&mut w, "min(iw,");
        push_dec(&mut w, max_w as u64);
        push_str(&mut w, ")");
    } else {
        push_str(&mut w, "iw");
    }
    let mut h = String::new();
    if max_h > 0 {
        push_str(&mut h, "min(ih,");
        push_dec(&mut h, max_h as u64);
        push_str(&mut h, ")");
    } else {
        push_str(&mut h, "ih");
    }
    let mut out = owned("scale=");
    push_str(&mut out, w.as_str());
    out.push(':');
    push_str(&mut out, h.as_str());
    push_str(&mut out, ":force_original_aspect_ratio=decrease");
    proof {
        let ws = if max_w > 0 { "min(iw,"@ + dec(max_w as nat) + ")"@ } else { "iw"@ };
        let hs = if max_h > 0 { "min(ih,"@ + dec(max_h as nat) + ")"@ } else { "ih"@ };
        assert(w@ =~= ws);
        assert(h@ =~= hs);
        assert(out@ =~= "scale="@ + ws + seq![':'] + hs + ":force_original_aspect_ratio=decrease"@);
    }
    out
}

/// Filter chain for a rotation and a size limit.
pub fn build_vf(rot: RotAngle, max_w: u32, max_h: u32) -> (r: Option<String>)
    ensures
        match r {
            Some(s) => spec_build_vf(rot.deg(), max_w, max_h) == Some(s@),
            None => spec_build_vf(rot.deg(), max_w, max_h) is None,
        },
{
    let deg = rot.degrees();
    let ghost rp = spec_rot_part(deg as int);
    let mut out = String::new();
    let mut any = false;
    if deg == 90 {
        push_str(&mut out, "transpose=1");
        any = true;
    } else if deg == 180 {
        push_str(&mut out, "transpose=1,transpose=1");
        any = true;
    } else if deg == 270 {
        push_str(&mut out, "transpose=2");
        any = true;
    }
    assert(any == (rp.len() > 0));
    assert(any ==> rp.len() == 1 && out@ == rp[0]);
    if max_w > 0 || max_h > 0 {
        let sc = scale_filter(max_w, max_h);
        let ghost before = out@;
        if any {
            out.push(',');
        }
        push_str(&mut out, sc.as_str());
        proof {
            let parts = rp + spec_scale_part(max_w, max_h);
            if any {
                assert(parts.drop_last() =~= rp);
                assert(join_comma(rp) == rp[0]);
                assert(out@ =~= join_comma(parts.drop_last()) + seq![','] + parts.last());
            } else {
                assert(parts =~= seq![sc@]);
                assert(out@ =~= sc@);
            }
        }
        return Some(out);
    }
    if any {
        assert(rp + spec_scale_part(max_w, max_h) =~= rp);
        Some(out)
    } else {
        assert(rp + spec_scale_part(max_w, max_h) =~= Seq::<Seq<char>>::empty());
        None
    }
}

// ---------------------------------------------------------------------------
// Progress

/// Microseconds reported by an ffmpeg `-progress` line: the number after
/// `out_time_us=`, or a thousand times the number after `out_time_ms=`;
/// anything else gives `None`.
pub open spec fn spec_out_time_us(line: Seq<char>) -> Option<int> {
    let t = trim(line);
    if starts_with(t, "out_time_us="@) {
        match parse_u64(trim(t.skip(12))) {
            Some(v) => Some(v as int),
            None => None,
        }
    } else if starts_with(t, "out_time_ms="@) {
        match parse_u64(trim(t.skip(12))) {
            Some(v) => Some(v * 1000),
            None => None,
        }
    } else {
        None
    }
}

/// The reading fits in 64 bits.
pub open spec fn out_time_fits(line: Seq<char>) -> bool {
    match spec_out_time_us(line) {
        Some(v) => v <= u64::MAX,
        None => true,
    }
}

fn out_time_value(line: &str) -> (r: (u8, Option<u64>))
    ensures
        r.0 == 0 ==> spec_out_time_us(line@) is None && r.1 is None,
        r.0 == 1 ==> (match r.1 {
            Some(v) => spec_out_time_us(line@) == Some(v as int),
            None => spec_out_time_us(line@) is None,
        }),
        r.0 == 2 ==> (match r.1 {
            Some(v) => spec_out_time_us(line@) == Some(v * 1000),
            None => spec_out_time_us(line@) is None,
        }),
        r.0 <= 2,
{
    let raw = chars_of(line);
    let t = trim_chars(&raw);
    let us = chars_of("out_time_us=");
    let ms = chars_of("out_time_ms=");
    proof {
        reveal_strlit("out_time_us=");
        reveal_strlit("out_time_ms=");
    }
    if starts_with_exec(&t, &us) {
        let rest = slice_chars(&t, 12, t.len());
        assert(rest@ == t@.skip(12));
        let v = trim_chars(&rest);
        (1, parse_u64_exec(&v))
    } else if starts_with_exec(&t, &ms) {
        let rest = slice_chars(&t, 12, t.len());
        assert(rest@ == t@.skip(12));
        let v = trim_chars(&rest);
        (2, parse_u64_exec(&v))
    } else {
        (0, None)
    }
}

/// Whether `parse_out_time_us` can be called on `line` (the reading fits in 64 bits).
pub fn out_time_in_range(line: &str) -> (r: bool)
    ensures
        r == out_time_fits(line@),
{
    let (k, v) = out_time_value(line);
    match v {
        Some(x) => k != 2 || x <= u64::MAX / 1000,
        None => true,
    }
}

/// Microseconds of an ffmpeg `-progress` line.
pub fn parse_out_time_us(line: &str) -> (r: Option<u64>)
    requires
        out_time_fits(line@),
    ensures
        match r {
            Some(v) => spec_out_time_us(line@) == Some(v as int),
            None => spec_out_time_us(line@) is None,
        },
{
    let (k, v) = out_time_value(line);
    match v {
        Some(x) => {
            if k == 2 {
                Some(x * 1000)
            } else {
                Some(x)
            }
        },
        None => None,
    }
}

// ---------------------------------------------------------------------------
// Output paths

/// `base.ext` in `dir`.
pub open spec fn plain_name(dir: Seq<char>, base: Seq<char>, ext: Seq<char>) -> Seq<char> {
    join(dir, base + seq!['.'] + ext)
}

/// `base (i).ext` in `dir`.
pub open spec fn numbered_name(dir: Seq<char>, base: Seq<char>, ext: Seq<char>, i: int) -> Seq<char> {
    join(dir, base + " ("@ + dec(i as nat) + ")."@ + ext)
}

/// `i` is the smallest number from 1 to 999 whose numbered name is free.
pub open spec fn first_free(
    dir: Seq<char>,
    base: Seq<char>,
    ext: Seq<char>,
    existing: Seq<String>,
    i: int,
) -> bool {
    &&& 1 <= i < 1000
    &&& !listed(existing, numbered_name(dir, base, ext, i))
    &&& forall|j: int| 1 <= j < i ==> listed(existing, #[trigger] numbered_name(dir, base, ext, j))
}

/// Collision-safe output path: `base.ext` when it is free; otherwise, under
/// the `skip` policy an error, under any other policy the first free
/// `base (i).ext` for i from 1 to 999, or an error when all are taken.
pub open spec fn spec_free_output(
    dir: Seq<char>,
    base: Seq<char>,
    ext: Seq<char>,
    policy: Seq<char>,
    existing: Seq<String>,
) -> Result<Seq<char>, Seq<char>> {
    let first = plain_name(dir, base, ext);
    if !listed(existing, first) {
        Ok(first)
    } else if policy == "skip"@ {
        Err("输出已存在，按策略跳过："@ + first)
    } else if exists|i: int| first_free(dir, base, ext, existing, i) {
        Ok(numbered_name(dir, base, ext, choose|i: int| first_free(dir, base, ext, existing, i)))
    } else {
        Err("无法生成不冲突的输出名"@)
    }
}

/// At most one number is the first free one.
pub proof fn lemma_first_free_unique(
    dir: Seq<char>,
    base: Seq<char>,
    ext: Seq<char>,
    existing: Seq<String>,
    i: int,
    j: int,
)
    requires
        first_free(dir, base, ext, existing, i),
        first_free(dir, base, ext, existing, j),
    ensures
        i == j,
{
    if i < j {
        assert(listed(existing, numbered_name(dir, base, ext, i)));
    } else if j < i {
        assert(listed(existing, numbered_name(dir, base, ext, j)));
    }
}

/// The output path for `base.ext` in `dir`, given the paths that exist
/// there; errors are reported as `CoreError::Io` (kind `Other`) with the message.
pub fn free_output_path(
    dir: &str,
    base: &str,
    ext: &str,
    policy: &str,
    existing: &Vec<String>,
) -> (r: Result<String, CoreError>)
    ensures
        match r {
            Ok(p) => spec_free_output(dir@, base@, ext@, policy@, existing@) == Ok::<Seq<char>, Seq<char>>(p@),
            Err(e) => exists|m: String|
                e == CoreError::Io(IoErrorKind::Other, m) && spec_free_output(dir@, base@, ext@, policy@, existing@)
                    == Err::<Seq<char>, Seq<char>>(m@),
        },
{
    let mut name = owned(base);
    name.push('.');
    push_str(&mut name, ext);
    assert(name@ =~= base@ + seq!['.'] + ext@);
    let first = join_path(dir, name.as_str());
    assert(first@ == plain_name(dir@, base@, ext@));
    if !listed_exec(existing, first.as_str()) {
        return Ok(first);
    }
    if str_is(policy, "skip") {
        let mut m = owned("输出已存在，按策略跳过：");
        push_str(&mut m, first.as_str());
        return Err(CoreError::Io(IoErrorKind::Other, m));
    }
    let mut i: u64 = 1;
    while i < 1000
        invariant
            1 <= i <= 1000,
            listed(existing@, plain_name(dir@, base@, ext@)),
            policy@ != "skip"@,
            forall|j: int| 1 <= j < i ==> listed(existing@, #[trigger] numbered_name(dir@, base@, ext@, j)),
        decreases 1000 - i,
    {
        let mut n = owned(base);
        push_str(&mut n, " (");
        push_dec(&mut n, i);
        push_str(&mut n, ").");
        push_str(&mut n, ext);
        let p = join_path(dir, n.as_str());
        assert(p@ == numbered_name(dir@, base@, ext@, i as int));
        if !listed_exec(existing, p.as_str()) {
            proof {
                assert(first_free(dir@, base@, ext@, existing@, i as int));
                let k = choose|k: int| first_free(dir@, base@, ext@, existing@, k);
                lemma_first_free_unique(dir@, base@, ext@, existing@, i as int, k);
            }
            return Ok(p);
        }
        i = i + 1;
    }
    proof {
        assert forall|k: int| !first_free(dir@, base@, ext@, existing@, k) by {
            if 1 <= k < 1000 {
                assert(listed(existing@, numbered_name(dir@, base@, ext@, k)));
            }
        }
    }
    Err(CoreError::Io(IoErrorKind::Other, owned("无法生成不冲突的输出名")))
}

// ---------------------------------------------------------------------------
// Transcode parameters and ffmpeg arguments

/// One transcode job (transcode, general and download settings plus the
/// item's rotation). Audio levels are in hundredths of a dB.
#[derive(Debug, Clone)]
pub struct TranscodeParams {
    pub input: String,
    pub out_dir: String,
    /// Title that the output name is made from.
    pub title: String,
    /// 纯标题 / 标题+ID / UP主-标题 / 日期-标题.
    pub filename_template: String,
    /// `mp4` or `mkv`.
    pub container: String,
    /// `auto`, `libx265`, `nvenc` or `amf`.
    pub encoder_mode: String,
    /// QSV low-power mode (only when `auto` picks QSV).
    pub low_power: bool,
    pub max_w: u32,
    pub max_h: u32,
    pub brcap_kbps: Option<u32>,
    pub normalize_audio: bool,
    /// Largest gain applied when normalizing, in hundredths of a dB.
    pub max_gain_cdb: u32,
    pub rot_angle: RotAngle,
    pub keep_cover: bool,
    /// `auto_inc` or `skip`.
    pub collision_policy: String,
}

/// `mkv` for the mkv container, `mp4` for any other.
pub open spec fn spec_container_ext(container: Seq<char>) -> Seq<char> {
    if container == "mkv"@ {
        "mkv"@
    } else {
        "mp4"@
    }
}

/// Extension of a container.
pub fn container_ext(container: &str) -> (r: &'static str)
    ensures
        r@ == spec_container_ext(container@),
{
    if str_is(container, "mkv") {
        "mkv"
    } else {
        "mp4"
    }
}

/// The result of an output-path computation agrees with the specified one.
pub open spec fn output_agrees(r: Result<String, CoreError>, s: Result<Seq<char>, Seq<char>>) -> bool {
    match r {
        Ok(p) => s == Ok::<Seq<char>, Seq<char>>(p@),
        Err(e) => exists|m: String| e == CoreError::Io(IoErrorKind::Other, m) && s == Err::<Seq<char>, Seq<char>>(m@),
    }
}

impl TranscodeParams {
    /// Extension of the output file.
    pub fn extension(&self) -> (r: &'static str)
        ensures
            r@ == spec_container_ext(self.container@),
    {
        container_ext(self.container.as_str())
    }

    /// Output path: the templated name, made collision-safe against the
    /// paths that already exist.
    pub fn output_path(&self, existing: &Vec<String>) -> (r: Result<String, CoreError>)
        ensures
            exists|secs: u64, y: int, m: int, d: int|
                date_of(secs, y, m, d) && output_agrees(
                    r,
                    spec_free_output(
                        self.out_dir@,
                        spec_template_name(self.filename_template@, self.title@, spec_ymd_dashed(y, m, d)),
                        spec_container_ext(self.container@),
                        self.collision_policy@,
                        existing@,
                    ),
                ),
    {
        let base = apply_filename_template(self.filename_template.as_str(), self.title.as_str());
        let ext = self.extension();
        free_output_path(
            self.out_dir.as_str(),
            base.as_str(),
            ext,
            self.collision_policy.as_str(),
            existing,
        )
    }
}

/// Gain to apply, in hundredths of a dB: when normalizing and the peak is
/// below -0.5 dB and above -100 dB, the distance to full scale, capped.
pub open spec fn spec_gain_cdb(normalize: bool, max_gain_cdb: u32, max_volume_cdb: Option<i32>) -> Option<int> {
    match max_volume_cdb {
        Some(v) => if normalize && v < -50 && v > -10000 {
            Some(if -v <= max_gain_cdb { -v } else { max_gain_cdb as int })
        } else {
            None
        },
        None => None,
    }
}

/// Hundredths as a decimal with two places (`{:.2}`).
pub open spec fn centi_text(c: nat) -> Seq<char> {
    dec(c / 100) + seq!['.'] + dec_pad(c % 100, 2)
}

/// Encoder arguments with the MP4 tag for libx265 and the bitrate cap.
pub open spec fn spec_full_encoder_args(p: TranscodeParams, encoder: Seq<char>, enc: Seq<Seq<char>>) -> Seq<Seq<char>> {
    enc + (if p.container@ == "mp4"@ && encoder == "libx265"@ {
        seq!["-tag:v"@, "hvc1"@]
    } else {
        seq![]
    }) + (match p.brcap_kbps {
        Some(br) => if br > 0 {
            seq!["-maxrate"@, dec(br as nat) + seq!['k'], "-bufsize"@, dec((br * 2) as nat) + seq!['k']]
        } else {
            seq![]
        },
        None => seq![],
    })
}

/// Audio arguments after `-c:a`: AAC with an optional volume filter when a
/// gain is applied (above 0.1 dB), a stream copy otherwise.
pub open spec fn spec_audio_args(gain: Option<int>) -> Seq<Seq<char>> {
    match gain {
        Some(g) => (if g > 10 {
            seq!["-af"@, "volume="@ + centi_text(g as nat) + "dB"@]
        } else {
            seq![]
        }) + seq!["aac"@],
        None => seq!["copy"@],
    }
}

/// The container's muxer arguments.
pub open spec fn spec_muxer_args(container: Seq<char>) -> Seq<Seq<char>> {
    if container == "mkv"@ {
        seq!["-f"@, "matroska"@]
    } else {
        seq!["-movflags"@, "+faststart"@, "-f"@, "mp4"@]
    }
}

/// Input, stream maps (cover included when kept) and filter chain.
pub open spec fn spec_head_args(p: TranscodeParams) -> Seq<Seq<char>> {
    seq!["-hide_banner"@, "-i"@, p.input@, "-map"@, "0:v:0"@, "-map"@, "0:a?"@]
        + (if p.keep_cover { seq!["-map"@, "0:t?"@] } else { seq![] })
        + (match spec_build_vf(p.rot_angle.deg(), p.max_w, p.max_h) {
            Some(vf) => seq!["-vf"@, vf],
            None => seq![],
        })
}

/// Cover copy, metadata, muxer and machine-readable progress.
pub open spec fn spec_tail_args(p: TranscodeParams) -> Seq<Seq<char>> {
    (if p.keep_cover { seq!["-c:t"@, "copy"@] } else { seq![] })
        + seq!["-map_metadata"@, "0"@]
        + spec_muxer_args(p.container@)
        + seq!["-y"@, "-progress"@, "pipe:1"@, "-nostats"@, "-loglevel"@, "error"@]
}

/// The ffmpeg arguments of a transcode: input and stream maps (cover
/// included when kept), filter chain, encoder and its arguments, audio,
/// cover copy, metadata, muxer, and machine-readable progress.
pub open spec fn spec_transcode_args(
    p: TranscodeParams,
    max_volume_cdb: Option<i32>,
    qsv: bool,
) -> Seq<Seq<char>> {
    let (encoder, enc) = spec_pick_encoder(p.encoder_mode@, p.low_power, qsv);
    spec_head_args(p)
        + seq!["-c:v"@, encoder]
        + spec_full_encoder_args(p, encoder, enc)
        + seq!["-c:a"@]
        + spec_audio_args(spec_gain_cdb(p.normalize_audio, p.max_gain_cdb, max_volume_cdb))
        + spec_tail_args(p)
}

/// A kept cover is mapped and copied whatever the container: the
/// arguments map `0:t?` right after the audio map and hold `-c:t copy`;
/// the same transcode without the cover has exactly those four arguments
/// fewer.
pub proof fn law_keep_cover_maps_attachments(
    p: TranscodeParams,
    q: TranscodeParams,
    max_volume_cdb: Option<i32>,
    qsv: bool,
)
    requires
        p.keep_cover,
        q == (TranscodeParams { keep_cover: false, ..p }),
    ensures
        spec_transcode_args(p, max_volume_cdb, qsv)[7] == "-map"@,
        spec_transcode_args(p, max_volume_cdb, qsv)[8] == "0:t?"@,
        exists|i: int|
            0 <= i && i + 1 < spec_transcode_args(p, max_volume_cdb, qsv).len() && #[trigger] spec_transcode_args(
                p,
                max_volume_cdb,
                qsv,
            )[i] == "-c:t"@ && spec_transcode_args(p, max_volume_cdb, qsv)[i + 1] == "copy"@,
        spec_transcode_args(q, max_volume_cdb, qsv).len() + 4 == spec_transcode_args(p, max_volume_cdb, qsv).len(),
{
    let a = spec_transcode_args(p, max_volume_cdb, qsv);
    let (encoder, enc) = spec_pick_encoder(p.encoder_mode@, p.low_power, qsv);
    let head = spec_head_args(p);
    let tail = spec_tail_args(p);
    let mid = seq!["-c:v"@, encoder] + spec_full_encoder_args(p, encoder, enc) + seq!["-c:a"@]
        + spec_audio_args(spec_gain_cdb(p.normalize_audio, p.max_gain_cdb, max_volume_cdb));
    assert(a =~= head + mid + tail);
    assert(head[7] == "-map"@ && head[8] == "0:t?"@);
    assert(a[7] == head[7] && a[8] == head[8]);
    let i: int = (head.len() + mid.len()) as int;
    assert(tail[0] == "-c:t"@ && tail[1] == "copy"@);
    assert(a[i] == tail[0] && a[i + 1] == tail[1]);
    let (qe, qenc) = spec_pick_encoder(q.encoder_mode@, q.low_power, qsv);
    assert(qe == encoder && qenc == enc);
    assert(spec_full_encoder_args(q, qe, qenc) == spec_full_encoder_args(p, encoder, enc));
    assert(spec_head_args(q).len() + 2 == head.len());
    assert(spec_tail_args(q).len() + 2 == tail.len());
}

pub fn push_centi_text(s: &mut String, c: u32)
    ensures
        final(s)@ == old(s)@ + centi_text(c as nat),
{
    let ghost before = s@;
    push_dec(s, (c / 100) as u64);
    s.push('.');
    push_dec_pad(s, (c % 100) as u64, 2);
    assert(s@ =~= before + centi_text(c as nat));
}

fn push_full_encoder_args(args: &mut Vec<String>, p: &TranscodeParams, encoder: &String, enc: Vec<String>)
    requires
        match p.brcap_kbps {
            Some(br) => br <= u32::MAX / 2,
            None => true,
        },
    ensures
        views(final(args)@) == views(old(args)@) + spec_full_encoder_args(*p, encoder@, views(enc@)),
{
    let ghost before = views(args@);
    let ghost e = views(enc@);
    let mut k: usize = 0;
    while k < enc.len()
        invariant
            k <= enc.len(),
            e == views(enc@),
            views(args@) == before + e.take(k as int),
        decreases enc.len() - k,
    {
        push_arg(args, enc[k].clone());
        proof {
            assert(e.take(k + 1) =~= e.take(k as int).push(e[k as int]));
        }
        k = k + 1;
    }
    assert(e.take(enc.len() as int) =~= e);
    let ghost mid = views(args@);
    if str_is(p.container.as_str(), "mp4") && str_is(encoder.as_str(), "libx265") {
        push_lit(args, "-tag:v");
        push_lit(args, "hvc1");
    }
    let ghost mid2 = views(args@);
    assert(mid2 =~= mid + (if p.container@ == "mp4"@ && encoder@ == "libx265"@ {
        seq!["-tag:v"@, "hvc1"@]
    } else {
        seq![]
    }));
    match p.brcap_kbps {
        Some(br) => {
            if br > 0 {
                push_lit(args, "-maxrate");
                let mut a = dec_string(br as u64);
                a.push('k');
                assert(a@ == dec(br as nat) + seq!['k']);
                push_arg(args, a);
                push_lit(args, "-bufsize");
                let mut b = dec_string((br * 2) as u64);
                b.push('k');
                assert(b@ == dec((br * 2) as nat) + seq!['k']);
                push_arg(args, b);
            }
        },
        None => {},
    }
    assert(views(args@) =~= mid2 + (match p.brcap_kbps {
        Some(br) => if br > 0 {
            seq!["-maxrate"@, dec(br as nat) + seq!['k'], "-bufsize"@, dec((br * 2) as nat) + seq!['k']]
        } else {
            seq![]
        },
        None => seq![],
    }));
    assert(views(args@) =~= before + spec_full_encoder_args(*p, encoder@, e));
}

fn push_audio_args(args: &mut Vec<String>, gain: Option<u32>)
    ensures
        views(final(args)@) == views(old(args)@) + spec_audio_args(
            match gain {
                Some(g) => Some(g as int),
                None => None,
            },
        ),
{
    let ghost before = views(args@);
    match gain {
        Some(g) => {
            if g > 10 {
                push_lit(args, "-af");
                let mut v = owned("volume=");
                push_centi_text(&mut v, g);
                push_str(&mut v, "dB");
                push_arg(args, v);
            }
            push_lit(args, "aac");
        },
        None => {
            push_lit(args, "copy");
        },
    }
    assert(views(args@) =~= before + spec_audio_args(
        match gain {
            Some(g) => Some(g as int),
            None => None,
        },
    ));
}

/// Gain in hundredths of a dB (see `spec_gain_cdb`).
pub fn gain_cdb(normalize: bool, max_gain_cdb: u32, max_volume_cdb: Option<i32>) -> (r: Option<u32>)
    ensures
        match r {
            Some(g) => spec_gain_cdb(normalize, max_gain_cdb, max_volume_cdb) == Some(g as int),
            None => spec_gain_cdb(normalize, max_gain_cdb, max_volume_cdb) is None,
        },
{
    match max_volume_cdb {
        Some(v) => {
            if normalize && v < -50 && v > -10000 {
                let up: u32 = (-v) as u32;
                if up <= max_gain_cdb {
                    Some(up)
                } else {
                    Some(max_gain_cdb)
                }
            } else {
                None
            }
        },
        None => None,
    }
}

fn push_head_args(args: &mut Vec<String>, p: &TranscodeParams)
    ensures
        views(final(args)@) == views(old(args)@) + spec_head_args(*p),
{
    let ghost before = views(args@);
    push_lit(args, "-hide_banner");
    push_lit(args, "-i");
    push_lit(args, p.input.as_str());
    push_lit(args, "-map");
    push_lit(args, "0:v:0");
    push_lit(args, "-map");
    push_lit(args, "0:a?");
    let ghost s1 = views(args@);
    assert(s1 =~= before + seq!["-hide_banner"@, "-i"@, p.input@, "-map"@, "0:v:0"@, "-map"@, "0:a?"@]);
    if p.keep_cover {
        push_lit(args, "-map");
        push_lit(args, "0:t?");
    }
    let ghost s2 = views(args@);
    assert(s2 =~= s1 + (if p.keep_cover { seq!["-map"@, "0:t?"@] } else { seq![] }));
    match build_vf(p.rot_angle, p.max_w, p.max_h) {
        Some(vf) => {
            push_lit(args, "-vf");
            push_arg(args, vf);
        },
        None => {},
    }
    assert(views(args@) =~= before + spec_head_args(*p));
}

fn push_tail_args(args: &mut Vec<String>, p: &TranscodeParams)
    ensures
        views(final(args)@) == views(old(args)@) + spec_tail_args(*p),
{
    let ghost before = views(args@);
    if p.keep_cover {
        push_lit(args, "-c:t");
        push_lit(args, "copy");
    }
    let ghost s1 = views(args@);
    assert(s1 =~= before + (if p.keep_cover { seq!["-c:t"@, "copy"@] } else { seq![] }));
    push_lit(args, "-map_metadata");
    push_lit(args, "0");
    let ghost s2 = views(args@);
    if str_is(p.container.as_str(), "mkv") {
        push_lit(args, "-f");
        push_lit(args, "matroska");
    } else {
        push_lit(args, "-movflags");
        push_lit(args, "+faststart");
        push_lit(args, "-f");
        push_lit(args, "mp4");
    }
    let ghost s3 = views(args@);
    assert(s3 =~= s2 + spec_muxer_args(p.container@));
    push_lit(args, "-y");
    push_lit(args, "-progress");
    push_lit(args, "pipe:1");
    push_lit(args, "-nostats");
    push_lit(args, "-loglevel");
    push_lit(args, "error");
    assert(views(args@) =~= before + spec_tail_args(*p));
}

/// The ffmpeg arguments of a transcode. `max_volume_cdb` is the measured
/// peak level; `qsv` says whether ffmpeg offers `hevc_qsv` (only consulted
/// in `auto` mode).
pub fn build_args(p: &TranscodeParams, max_volume_cdb: Option<i32>, qsv: bool) -> (r: Vec<String>)
    requires
        match p.brcap_kbps {
            Some(br) => br <= u32::MAX / 2,
            None => true,
        },
    ensures
        views(r@) == spec_transcode_args(*p, max_volume_cdb, qsv),
{
    let (encoder, enc) = pick_encoder(p.encoder_mode.as_str(), p.low_power, qsv);
    let mut args: Vec<String> = Vec::new();
    push_head_args(&mut args, p);
    let ghost s1 = views(args@);
    push_lit(&mut args, "-c:v");
    push_arg(&mut args, encoder.clone());
    let ghost s2 = views(args@);
    push_full_encoder_args(&mut args, p, &encoder, enc);
    let ghost s3 = views(args@);
    push_lit(&mut args, "-c:a");
    let ghost s4 = views(args@);
    let g = gain_cdb(p.normalize_audio, p.max_gain_cdb, max_volume_cdb);
    push_audio_args(&mut args, g);
    let ghost s5 = views(args@);
    push_tail_args(&mut args, p);
    proof {
        let ga = spec_gain_cdb(p.normalize_audio, p.max_gain_cdb, max_volume_cdb);
        assert(ga == match g {
            Some(x) => Some(x as int),
            None => None::<int>,
        });
        assert(s1 =~= spec_head_args(*p));
        assert(s2 =~= s1 + seq!["-c:v"@, encoder@]);
        assert(s4 =~= s3 + seq!["-c:a"@]);
        assert(s5 =~= s4 + spec_audio_args(ga));
        assert(views(args@) =~= spec_transcode_args(*p, max_volume_cdb, qsv));
    }
    args
}

// ---------------------------------------------------------------------------
// Running

/// A failed hardware transcode is retried once with libx265, unless it was
/// canceled or libx265 was the encoder already.
pub fn retry_with_libx265(err: &CoreError, mode: &str) -> (r: bool)
    ensures
        r == (!(*err is Cancelled) && mode@ != "libx265"@),
{
    let cancelled = match err {
        CoreError::Cancelled => true,
        _ => false,
    };
    !cancelled && !str_is(mode, "libx265")
}

/// ffmpeg's error output as reported: trimmed, or （无错误输出） when empty.
pub open spec fn spec_stderr_summary(buf: Seq<char>) -> Seq<char> {
    if trim(buf).len() == 0 {
        "（无错误输出）"@
    } else {
        trim(buf)
    }
}

/// Summarizes ffmpeg's error output.
pub fn stderr_summary(buf: &str) -> (r: String)
    ensures
        r@ == spec_stderr_summary(buf@),
{
    let t = trim_chars(&chars_of(buf));
    if t.len() == 0 {
        owned("（无错误输出）")
    } else {
        string_of(&t)
    }
}


// ---------------------------------------------------------------------------
// Laws

proof fn lemma_strip_start_suffix(s: Seq<char>, f: spec_fn(char) -> bool) -> (k: int)
    ensures
        0 <= k <= s.len(),
        strip_start(s, f) == s.skip(k),
    decreases s.len(),
{
    if s.len() > 0 && f(s[0]) {
        let k = lemma_strip_start_suffix(s.drop_first(), f);
        assert(s.drop_first().skip(k) =~= s.skip(k + 1));
        k + 1
    } else {
        assert(s.skip(0) =~= s);
        0
    }
}

proof fn lemma_strip_end_prefix(s: Seq<char>, f: spec_fn(char) -> bool) -> (k: int)
    ensures
        0 <= k <= s.len(),
        strip_end(s, f) == s.take(k),
    decreases s.len(),
{
    if s.len() > 0 && f(s.last()) {
        let k = lemma_strip_end_prefix(s.drop_last(), f);
        assert(s.drop_last().take(k) =~= s.take(k));
        k
    } else {
        assert(s.take(s.len() as int) =~= s);
        s.len() as int
    }
}

/// A cleaned file name is never empty, has at most 120 characters, and
/// holds none of the characters Windows forbids nor control characters.
pub proof fn law_sanitize_clean(s: Seq<char>)
    ensures
        1 <= spec_sanitize(s).len() <= 120,
        forall|i: int| 0 <= i < spec_sanitize(s).len() ==> !is_bad_name_char(#[trigger] spec_sanitize(s)[i]),
{
    let m = replace_bad(s);
    assert(forall|i: int| 0 <= i < m.len() ==> !is_bad_name_char(#[trigger] m[i]));
    let k1 = lemma_strip_start_suffix(m, crate::text::ws());
    let a = strip_start(m, crate::text::ws());
    let k2 = lemma_strip_end_prefix(a, crate::text::ws());
    let b = trim(m);
    assert(b == a.take(k2));
    assert forall|i: int| 0 <= i < b.len() implies !is_bad_name_char(#[trigger] b[i]) by {
        assert(b[i] == a[i]);
        assert(a[i] == m[i + k1]);
    }
    let k3 = lemma_strip_end_prefix(b, is_char('.'));
    let t = strip_end(b, is_char('.'));
    assert forall|i: int| 0 <= i < t.len() implies !is_bad_name_char(#[trigger] t[i]) by {
        assert(t[i] == b[i]);
    }
    reveal_strlit("未命名");
}

/// The output path never names an existing file, and a free `base.ext` is
/// always taken as it is.
pub proof fn law_free_output_avoids_existing(
    dir: Seq<char>,
    base: Seq<char>,
    ext: Seq<char>,
    policy: Seq<char>,
    existing: Seq<String>,
)
    ensures
        spec_free_output(dir, base, ext, policy, existing) matches Ok(p) ==> !listed(existing, p),
        !listed(existing, plain_name(dir, base, ext)) ==> spec_free_output(dir, base, ext, policy, existing)
            == Ok::<Seq<char>, Seq<char>>(plain_name(dir, base, ext)),
{
}

/// Under the `skip` policy an existing `base.ext` is reported, never renamed.
pub proof fn law_skip_policy_never_renames(
    dir: Seq<char>,
    base: Seq<char>,
    ext: Seq<char>,
    existing: Seq<String>,
)
    requires
        listed(existing, plain_name(dir, base, ext)),
    ensures
        spec_free_output(dir, base, ext, "skip"@, existing) is Err,
{
}

/// An explicitly chosen encoder (libx265, nvenc, amf) is used whatever the
/// hardware offers; `auto` uses QSV only when it is offered.
pub proof fn law_explicit_encoder_kept(mode: Seq<char>, low_power: bool, q1: bool, q2: bool)
    ensures
        (mode == "libx265"@ || mode == "nvenc"@ || mode == "amf"@) ==> spec_pick_encoder(mode, low_power, q1)
            == spec_pick_encoder(mode, low_power, q2),
        (mode != "libx265"@ && mode != "nvenc"@ && mode != "amf"@) ==> (spec_pick_encoder(
            mode,
            low_power,
            q1,
        ).0 == "hevc_qsv"@ <==> q1),
{
    reveal_strlit("hevc_qsv");
    reveal_strlit("libx265");
    assert("hevc_qsv"@.len() != "libx265"@.len());
}

/// A gain is positive and never above the limit.
pub proof fn law_gain_bounded(normalize: bool, max_gain_cdb: u32, max_volume_cdb: Option<i32>)
    ensures
        spec_gain_cdb(normalize, max_gain_cdb, max_volume_cdb) matches Some(g) ==> 0 < g <= max_gain_cdb
            || (g == max_gain_cdb && max_gain_cdb == 0),
        spec_gain_cdb(normalize, max_gain_cdb, max_volume_cdb) matches Some(g) ==> g <= max_gain_cdb,
        !normalize ==> spec_gain_cdb(normalize, max_gain_cdb, max_volume_cdb) is None,
{
}


/// libx265 always encodes at CRF 23 with the medium preset.
pub proof fn law_x265_crf_fixed(mode: Seq<char>, low_power: bool, qsv: bool)
    ensures
        spec_pick_encoder(mode, low_power, qsv).0 == "libx265"@ ==> spec_pick_encoder(mode, low_power, qsv).1
            == seq!["-crf"@, "23"@, "-preset"@, "medium"@],
{
    reveal_strlit("libx265");
    reveal_strlit("hevc_nvenc");
    reveal_strlit("hevc_amf");
    reveal_strlit("hevc_qsv");
    assert("libx265"@.len() != "hevc_nvenc"@.len());
    assert("libx265"@.len() != "hevc_qsv"@.len());
    assert("libx265"@.len() != "hevc_amf"@.len());
}

} // verus!
