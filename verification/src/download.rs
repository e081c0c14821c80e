//! yt-dlp download arguments: format selection with fallbacks, sort order,
//! MP4 container, output template, fragments, retries, cover, audio-only,
//! playlist, proxy, cookies and time sections.
use vstd::prelude::*;

use crate::config::DownloadConfig;
use crate::error::CoreError;
use crate::paths::{join, join_path, path_with_extension, with_extension};
use crate::transcode::{centi_text, gain_cdb, push_centi_text, spec_gain_cdb};
use crate::text::{chars_of, dec, listed, listed_exec, owned, push_arg, push_dec, push_lit, push_str,
    slice_chars, starts_with, starts_with_exec, str_is, string_of, to_lowercase, trim, trim_chars,
    unicode_lowercase, views};

verus! {

/// Parameters of one download (from the settings and the user's choices).
#[derive(Debug, Clone)]
pub struct DownloadParams {
    pub format_id: Option<String>,
    pub audio_only: bool,
    pub out_dir: String,
    pub filename_template: String,
    pub embed_cover: bool,
    pub proxy: Option<String>,
    pub cookies_file: Option<String>,
    /// Start and end ("HH:MM:SS") of a time section.
    pub sections: Option<(String, String)>,
}

/// Files produced by a download.
#[derive(Debug, Clone)]
pub struct DownloadOutcome {
    pub output_paths: Vec<String>,
}

pub open spec fn spec_output_template(tmpl: Seq<char>, playlist: bool) -> Seq<char> {
    if playlist {
        "%(playlist_title)s/%(playlist_index)s - %(title)s.%(ext)s"@
    } else if tmpl == "标题+ID"@ {
        "%(title)s [%(id)s].%(ext)s"@
    } else if tmpl == "UP主-标题"@ {
        "%(uploader)s - %(title)s.%(ext)s"@
    } else if tmpl == "日期-标题"@ {
        "%(upload_date)s %(title)s.%(ext)s"@
    } else {
        "%(title)s.%(ext)s"@
    }
}

/// yt-dlp output template for a file name template.
pub fn output_template(tmpl: &str, playlist: bool) -> (r: &'static str)
    ensures
        r@ == spec_output_template(tmpl@, playlist),
{
    if playlist {
        return "%(playlist_title)s/%(playlist_index)s - %(title)s.%(ext)s";
    }
    if str_is(tmpl, "标题+ID") {
        "%(title)s [%(id)s].%(ext)s"
    } else if str_is(tmpl, "UP主-标题") {
        "%(uploader)s - %(title)s.%(ext)s"
    } else if str_is(tmpl, "日期-标题") {
        "%(upload_date)s %(title)s.%(ext)s"
    } else {
        "%(title)s.%(ext)s"
    }
}

pub open spec fn spec_default_format(max_h: u32) -> Seq<char> {
    "bv*[height<="@ + dec(max_h as nat) + "]+ba/b[height<="@ + dec(max_h as nat) + "]/bv*+ba/b"@
}

/// Default format string: best video up to `max_h` plus best audio, then
/// the fallbacks.
pub fn default_format(max_h: u32) -> (r: String)
    ensures
        r@ == spec_default_format(max_h),
{
    let mut s = owned("bv*[height<=");
    push_dec(&mut s, max_h as u64);
    push_str(&mut s, "]+ba/b[height<=");
    push_dec(&mut s, max_h as u64);
    push_str(&mut s, "]/bv*+ba/b");
    s
}

/// Sort order handed to yt-dlp.
pub const SORT_SPEC: &'static str = "vcodec:h264,lang,quality,res,fps,acodec:aac,size,proto,ext";

pub open spec fn spec_format(p: DownloadParams, cfg: DownloadConfig) -> Seq<char> {
    match p.format_id {
        Some(fid) if fid@.len() > 0 => if p.audio_only {
            fid@ + "/bestaudio/best"@
        } else {
            fid@ + "+ba/b"@
        },
        _ => if p.audio_only {
            "bestaudio/best"@
        } else {
            spec_default_format(cfg.max_h)
        },
    }
}

pub open spec fn base_args(p: DownloadParams, cfg: DownloadConfig) -> Seq<Seq<char>> {
    seq![
        "--format"@,
        spec_format(p, cfg),
        "-S"@,
        SORT_SPEC@,
        "--merge-output-format"@,
        "mp4"@,
        "-o"@,
        join(p.out_dir@, spec_output_template(p.filename_template@, cfg.playlist)),
        "--no-overwrites"@,
        "-N"@,
        dec(cfg.fragments as nat),
        "--retries"@,
        dec(cfg.retries as nat),
        "--retry-sleep"@,
        "3"@,
    ]
}

pub open spec fn option_args(p: DownloadParams, cfg: DownloadConfig) -> Seq<Seq<char>> {
    (if cfg.embed_cover {
        seq!["--embed-thumbnail"@, "--embed-metadata"@]
    } else {
        seq![]
    }) + (if p.audio_only {
        seq!["-x"@, "--audio-format"@, "mp3"@, "--audio-quality"@, "0"@]
    } else {
        seq![]
    }) + (if cfg.playlist {
        seq!["--yes-playlist"@]
    } else {
        seq!["--no-playlist"@]
    })
}

pub open spec fn access_args(p: DownloadParams) -> Seq<Seq<char>> {
    (match p.proxy {
        Some(px) if px@.len() > 0 => seq!["--proxy"@, px@],
        _ => seq![],
    }) + (match p.cookies_file {
        Some(cf) => seq!["--cookies"@, cf@],
        None => seq![],
    }) + (match p.sections {
        Some((a, b)) => seq!["--download-sections"@, seq!['*'] + a@ + seq!['-'] + b@],
        None => seq![],
    })
}

pub open spec fn tail_args(url: Seq<char>) -> Seq<Seq<char>> {
    seq![
        "--newline"@,
        "--no-progress"@,
        "--windows-filenames"@,
        "--trim-filenames"@,
        "120"@,
        "--no-warnings"@,
        "--ignore-errors"@,
        url,
    ]
}

/// The yt-dlp arguments of a download: format, sort order, MP4 container,
/// output, no overwrite, fragments, retries; cover, audio-only and playlist
/// switches; proxy, cookies and section; progress and file name switches;
/// the URL last.
pub open spec fn spec_build_args(url: Seq<char>, p: DownloadParams, cfg: DownloadConfig) -> Seq<Seq<char>> {
    base_args(p, cfg) + option_args(p, cfg) + access_args(p) + tail_args(url)
}

/// Playlist downloading follows the setting: the arguments hold
/// `--yes-playlist` when it is on and `--no-playlist` when it is off, just
/// before the access switches.
pub proof fn law_playlist_switch(url: Seq<char>, p: DownloadParams, cfg: DownloadConfig)
    ensures
        cfg.playlist ==> exists|i: int|
            0 <= i < spec_build_args(url, p, cfg).len() && #[trigger] spec_build_args(url, p, cfg)[i]
                == "--yes-playlist"@,
        !cfg.playlist ==> exists|i: int|
            0 <= i < spec_build_args(url, p, cfg).len() && #[trigger] spec_build_args(url, p, cfg)[i]
                == "--no-playlist"@,
{
    let a = spec_build_args(url, p, cfg);
    let b = base_args(p, cfg);
    let o = option_args(p, cfg);
    assert(a =~= b + o + access_args(p) + tail_args(url));
    let i: int = b.len() + o.len() - 1;
    assert(a[i] == o[o.len() - 1]);
}

/// Turning playlist downloading on or off swaps one switch for the other
/// (and the output template): the argument list keeps its length.
pub proof fn law_playlist_switch_swaps(url: Seq<char>, p: DownloadParams, cfg: DownloadConfig, other: DownloadConfig)
    requires
        other == (DownloadConfig { playlist: !cfg.playlist, ..cfg }),
    ensures
        spec_build_args(url, p, other).len() == spec_build_args(url, p, cfg).len(),
{
}

fn push_base_args(args: &mut Vec<String>, p: &DownloadParams, cfg: &DownloadConfig)
    ensures
        views(final(args)@) == views(old(args)@) + base_args(*p, *cfg),
{
    let ghost before = views(args@);
    let format = match &p.format_id {
        Some(fid) if fid.as_str().unicode_len() > 0 => {
            let mut f = owned(fid.as_str());
            if p.audio_only {
                push_str(&mut f, "/bestaudio/best");
            } else {
                push_str(&mut f, "+ba/b");
            }
            f
        },
        _ => {
            if p.audio_only {
                owned("bestaudio/best")
            } else {
                default_format(cfg.max_h)
            }
        },
    };
    assert(format@ == spec_format(*p, *cfg));
    push_lit(args, "--format");
    push_arg(args, format);
    push_lit(args, "-S");
    push_lit(args, SORT_SPEC);
    push_lit(args, "--merge-output-format");
    push_lit(args, "mp4");
    let tmpl = output_template(p.filename_template.as_str(), cfg.playlist);
    let out = join_path(p.out_dir.as_str(), tmpl);
    push_lit(args, "-o");
    push_arg(args, out);
    push_lit(args, "--no-overwrites");
    push_lit(args, "-N");
    let mut n = String::new();
    push_dec(&mut n, cfg.fragments as u64);
    push_arg(args, n);
    push_lit(args, "--retries");
    let mut n2 = String::new();
    push_dec(&mut n2, cfg.retries as u64);
    push_arg(args, n2);
    push_lit(args, "--retry-sleep");
    push_lit(args, "3");
    assert(views(args@) =~= before + base_args(*p, *cfg));
}

fn push_option_args(args: &mut Vec<String>, p: &DownloadParams, cfg: &DownloadConfig)
    ensures
        views(final(args)@) == views(old(args)@) + option_args(*p, *cfg),
{
    let ghost before = views(args@);
    if cfg.embed_cover {
        push_lit(args, "--embed-thumbnail");
        push_lit(args, "--embed-metadata");
    }
    let ghost mid1 = views(args@);
    assert(mid1 =~= before + (if cfg.embed_cover {
        seq!["--embed-thumbnail"@, "--embed-metadata"@]
    } else {
        seq![]
    }));
    if p.audio_only {
        push_lit(args, "-x");
        push_lit(args, "--audio-format");
        push_lit(args, "mp3");
        push_lit(args, "--audio-quality");
        push_lit(args, "0");
    }
    let ghost mid2 = views(args@);
    assert(mid2 =~= mid1 + (if p.audio_only {
        seq!["-x"@, "--audio-format"@, "mp3"@, "--audio-quality"@, "0"@]
    } else {
        seq![]
    }));
    if cfg.playlist {
        push_lit(args, "--yes-playlist");
    } else {
        push_lit(args, "--no-playlist");
    }
    assert(views(args@) =~= before + option_args(*p, *cfg));
}

fn push_access_args(args: &mut Vec<String>, p: &DownloadParams)
    ensures
        views(final(args)@) == views(old(args)@) + access_args(*p),
{
    let ghost before = views(args@);
    match &p.proxy {
        Some(px) => {
            if px.as_str().unicode_len() > 0 {
                push_lit(args, "--proxy");
                push_lit(args, px.as_str());
            }
        },
        None => {},
    }
    let ghost mid1 = views(args@);
    assert(mid1 =~= before + (match p.proxy {
        Some(px) if px@.len() > 0 => seq!["--proxy"@, px@],
        _ => seq![],
    }));
    match &p.cookies_file {
        Some(cf) => {
            push_lit(args, "--cookies");
            push_lit(args, cf.as_str());
        },
        None => {},
    }
    let ghost mid2 = views(args@);
    assert(mid2 =~= mid1 + (match p.cookies_file {
        Some(cf) => seq!["--cookies"@, cf@],
        None => seq![],
    }));
    match &p.sections {
        Some((a, b)) => {
            push_lit(args, "--download-sections");
            let mut s = String::new();
            s.push('*');
            push_str(&mut s, a.as_str());
            s.push('-');
            push_str(&mut s, b.as_str());
            assert(s@ =~= seq!['*'] + a@ + seq!['-'] + b@);
            push_arg(args, s);
        },
        None => {},
    }
    assert(views(args@) =~= before + access_args(*p));
}

/// The yt-dlp arguments of a download (the URL comes last).
pub fn build_args(url: &str, p: &DownloadParams, cfg: &DownloadConfig) -> (r: Vec<String>)
    ensures
        views(r@) == spec_build_args(url@, *p, *cfg),
{
    let mut args: Vec<String> = Vec::new();
    push_base_args(&mut args, p, cfg);
    push_option_args(&mut args, p, cfg);
    push_access_args(&mut args, p);
    let ghost before = views(args@);
    push_lit(&mut args, "--newline");
    push_lit(&mut args, "--no-progress");
    push_lit(&mut args, "--windows-filenames");
    push_lit(&mut args, "--trim-filenames");
    push_lit(&mut args, "120");
    push_lit(&mut args, "--no-warnings");
    push_lit(&mut args, "--ignore-errors");
    push_lit(&mut args, url);
    assert(views(args@) =~= before + tail_args(url@));
    assert(views(args@) =~= spec_build_args(url@, *p, *cfg));
    args
}

// ---------------------------------------------------------------------------
// File names

/// What `Path::extension` gives for a path: the text after the last `.` of
/// its file name, if any.
pub uninterp spec fn extension(p: Seq<char>) -> Option<Seq<char>>;

pub open spec fn is_video_ext(e: Seq<char>) -> bool {
    e == "mp4"@ || e == "mkv"@ || e == "mov"@ || e == "webm"@ || e == "avi"@ || e == "flv"@ || e
        == "ts"@ || e == "m4v"@
}

/// `Path::new(p).extension()`. Trusted: the result is named by `extension`
/// of the text (no bytes are lost: the path is UTF-8).
#[verifier::external_body]
pub(crate) fn extension_of(p: &str) -> (r: Option<String>)
    ensures
        match r {
            Some(e) => extension(p@) == Some(e@),
            None => extension(p@) is None,
        },
{
    std::path::Path::new(p).extension().map(|e| e.to_string_lossy().into_owned())
}

/// Whether the path has a video extension (case-insensitive).
pub fn is_video_file(p: &str) -> (r: bool)
    ensures
        r == match extension(p@) {
            Some(e) => is_video_ext(unicode_lowercase(e)),
            None => false,
        },
{
    match extension_of(p) {
        Some(e) => {
            let low = to_lowercase(e.as_str());
            let s = low.as_str();
            str_is(s, "mp4") || str_is(s, "mkv") || str_is(s, "mov") || str_is(s, "webm")
                || str_is(s, "avi") || str_is(s, "flv") || str_is(s, "ts") || str_is(s, "m4v")
        },
        None => false,
    }
}

// ---------------------------------------------------------------------------
// Output lines and files

/// The file of a `[download] Destination: <path>` line, trimmed.
pub open spec fn spec_destination(line: Seq<char>) -> Option<Seq<char>> {
    let t = trim(line);
    if starts_with(t, "[download]"@) {
        let rest = trim(t.skip(10));
        if starts_with(rest, "Destination:"@) {
            Some(trim(rest.skip(12)))
        } else {
            None
        }
    } else {
        None
    }
}

/// The file named by a yt-dlp destination line.
pub fn destination_of(line: &str) -> (r: Option<String>)
    ensures
        match r {
            Some(f) => spec_destination(line@) == Some(f@),
            None => spec_destination(line@) is None,
        },
{
    let t = trim_chars(&chars_of(line));
    let head = chars_of("[download]");
    let dest = chars_of("Destination:");
    proof {
        reveal_strlit("[download]");
        reveal_strlit("Destination:");
    }
    if !starts_with_exec(&t, &head) {
        return None;
    }
    let r0 = slice_chars(&t, 10, t.len());
    assert(r0@ == t@.skip(10));
    let rest = trim_chars(&r0);
    if !starts_with_exec(&rest, &dest) {
        return None;
    }
    let f = slice_chars(&rest, 12, rest.len());
    assert(f@ == rest@.skip(12));
    let ft = trim_chars(&f);
    Some(string_of(&ft))
}

// ---------------------------------------------------------------------------
// Progress lines

/// A progress line with a size, a speed and an ETA, after `[download]`:
/// `45.2% of 123.4MiB at 5.2MiB/s ETA 00:15`.
pub const FULL_PROGRESS_PATTERN: &'static str = "^(\\d+\\.\\d+)% of ~?([\\d.]+)([KMG]i?B|B) at ([\\d.]+)([KMG]i?B|B)/s ETA (\\d+:\\d+)";

/// A progress line with a size only (the last line of a download):
/// `100.0% of 35.6MiB`.
pub const PLAIN_PROGRESS_PATTERN: &'static str = "^(\\d+\\.\\d+)% of ~?([\\d.]+)([KMG]i?B|B)";

/// What `Regex::new(pattern)` followed by `captures(text)` gives, each
/// group (group 0 the whole match) as its text: none when the pattern does
/// not compile or does not match.
pub uninterp spec fn regex_captures_of(pattern: Seq<char>, text: Seq<char>) -> Option<Seq<Option<Seq<char>>>>;

/// The texts of capture groups.
pub open spec fn opt_groups(r: Option<Vec<Option<String>>>) -> Option<Seq<Option<Seq<char>>>> {
    match r {
        Some(v) => Some(
            v@.map_values(
                |o: Option<String>|
                    match o {
                        Some(s) => Some(s@),
                        None => None,
                    },
            ),
        ),
        None => None,
    }
}

/// `regex::Regex::new(pattern)` then `captures(text)`, each group copied
/// out. Trusted: the result is named by `regex_captures_of` of the two
/// texts. Neither call panics: a pattern that does not compile is an error,
/// which gives none.
#[verifier::external_body]
fn regex_captures(pattern: &str, text: &str) -> (r: Option<Vec<Option<String>>>)
    ensures
        opt_groups(r) == regex_captures_of(pattern@, text@),
{
    let re = regex::Regex::new(pattern).ok()?;
    re.captures(text).map(|c| c.iter().map(|m| m.map(|m| m.as_str().to_string())).collect())
}

/// The text of group `i`, empty when the group is missing.
pub open spec fn group(g: Seq<Option<Seq<char>>>, i: int) -> Seq<char> {
    if 0 <= i < g.len() {
        match g[i] {
            Some(t) => t,
            None => Seq::empty(),
        }
    } else {
        Seq::empty()
    }
}

/// What a progress line reports: the percentage text (none for a
/// destination line), the speed, the ETA and the file being written.
#[derive(Debug, Clone)]
pub struct ProgressText {
    pub percent: Option<String>,
    pub speed: Option<String>,
    pub eta: Option<String>,
    pub file: Option<String>,
}

pub open spec fn progress_view(p: ProgressText) -> (Option<Seq<char>>, Option<Seq<char>>, Option<Seq<char>>, Option<Seq<char>>) {
    (opt_text(p.percent), opt_text(p.speed), opt_text(p.eta), opt_text(p.file))
}

pub open spec fn opt_text(o: Option<String>) -> Option<Seq<char>> {
    match o {
        Some(s) => Some(s@),
        None => None,
    }
}

/// The text after `[download]` of a trimmed line, trimmed; none for other
/// lines.
pub open spec fn progress_rest(line: Seq<char>) -> Option<Seq<char>> {
    let t = trim(line);
    if starts_with(t, "[download]"@) {
        Some(trim(t.skip(10)))
    } else {
        None
    }
}

/// What the text after `[download]` reports, given the groups of the full
/// and the plain progress patterns on it: a `Destination:` names the file;
/// else a full match gives the percentage (group 1), the speed (groups 4
/// and 5, then `/s`) and the ETA (group 6); else a plain match gives the
/// percentage; anything else reports nothing.
pub open spec fn spec_progress_rest(
    rest: Seq<char>,
    full: Option<Seq<Option<Seq<char>>>>,
    plain: Option<Seq<Option<Seq<char>>>>,
) -> Option<(Option<Seq<char>>, Option<Seq<char>>, Option<Seq<char>>, Option<Seq<char>>)> {
    if starts_with(rest, "Destination:"@) {
        Some((None, None, None, Some(trim(rest.skip(12)))))
    } else {
        match full {
            Some(g) => Some((Some(group(g, 1)), Some(group(g, 4) + group(g, 5) + "/s"@), Some(group(g, 6)), None)),
            None => match plain {
                Some(g) => Some((Some(group(g, 1)), None, None, None)),
                None => None,
            },
        }
    }
}

/// What a yt-dlp line reports (see `spec_progress_rest`), with the two
/// patterns applied to the text after `[download]`.
pub open spec fn spec_progress(line: Seq<char>) -> Option<(Option<Seq<char>>, Option<Seq<char>>, Option<Seq<char>>, Option<Seq<char>>)> {
    match progress_rest(line) {
        Some(rest) => spec_progress_rest(
            rest,
            regex_captures_of(FULL_PROGRESS_PATTERN@, rest),
            regex_captures_of(PLAIN_PROGRESS_PATTERN@, rest),
        ),
        None => None,
    }
}

fn group_text(g: &Vec<Option<String>>, i: usize) -> (r: String)
    ensures
        r@ == group(opt_groups(Some(*g))->0, i as int),
{
    if i < g.len() {
        match &g[i] {
            Some(t) => owned(t.as_str()),
            None => String::new(),
        }
    } else {
        String::new()
    }
}

/// Reads the text after `[download]`, given the groups that the full and
/// the plain progress patterns capture on it.
pub fn progress_from_groups(
    rest: &str,
    full: Option<Vec<Option<String>>>,
    plain: Option<Vec<Option<String>>>,
) -> (r: Option<ProgressText>)
    ensures
        match r {
            Some(p) => spec_progress_rest(rest@, opt_groups(full), opt_groups(plain)) == Some(progress_view(p)),
            None => spec_progress_rest(rest@, opt_groups(full), opt_groups(plain)) is None,
        },
{
    let rv = chars_of(rest);
    let dest = chars_of("Destination:");
    proof {
        reveal_strlit("Destination:");
        reveal_strlit("/s");
    }
    if starts_with_exec(&rv, &dest) {
        let f = slice_chars(&rv, 12, rv.len());
        assert(f@ == rv@.skip(12));
        let ft = trim_chars(&f);
        return Some(ProgressText { percent: None, speed: None, eta: None, file: Some(string_of(&ft)) });
    }
    match full {
        Some(g) => {
            let percent = group_text(&g, 1);
            let mut speed = group_text(&g, 4);
            let unit = group_text(&g, 5);
            push_str(&mut speed, unit.as_str());
            push_str(&mut speed, "/s");
            let eta = group_text(&g, 6);
            Some(ProgressText { percent: Some(percent), speed: Some(speed), eta: Some(eta), file: None })
        },
        None => match plain {
            Some(g) => {
                let percent = group_text(&g, 1);
                Some(ProgressText { percent: Some(percent), speed: None, eta: None, file: None })
            },
            None => None,
        },
    }
}

/// Reads a yt-dlp output line: a destination, a progress report, or
/// nothing for other lines. The percentage is handed on as its text.
pub fn progress_of(line: &str) -> (r: Option<ProgressText>)
    ensures
        match r {
            Some(p) => spec_progress(line@) == Some(progress_view(p)),
            None => spec_progress(line@) is None,
        },
{
    let t = trim_chars(&chars_of(line));
    let head = chars_of("[download]");
    proof {
        reveal_strlit("[download]");
    }
    if !starts_with_exec(&t, &head) {
        return None;
    }
    let r0 = slice_chars(&t, 10, t.len());
    assert(r0@ == t@.skip(10));
    let rest = string_of(&trim_chars(&r0));
    let full = regex_captures(FULL_PROGRESS_PATTERN, rest.as_str());
    let plain = regex_captures(PLAIN_PROGRESS_PATTERN, rest.as_str());
    progress_from_groups(rest.as_str(), full, plain)
}

/// Each path once, at its first place.
pub open spec fn dedup(s: Seq<Seq<char>>) -> Seq<Seq<char>>
    decreases s.len(),
{
    if s.len() == 0 {
        s
    } else {
        let r = dedup(s.drop_last());
        if r.contains(s.last()) {
            r
        } else {
            r.push(s.last())
        }
    }
}

/// The paths that exist, in order.
pub open spec fn keep_existing(s: Seq<Seq<char>>, existing: Seq<String>) -> Seq<Seq<char>>
    decreases s.len(),
{
    if s.len() == 0 {
        s
    } else {
        let r = keep_existing(s.drop_last(), existing);
        if listed(existing, s.last()) {
            r.push(s.last())
        } else {
            r
        }
    }
}

/// Files a download produced: the destinations it reported, each once, or,
/// when it reported none, the media found in the output directory; only
/// those that exist count, and none is an error.
pub open spec fn spec_download_outputs(
    dests: Seq<Seq<char>>,
    fallback: Seq<Seq<char>>,
    existing: Seq<String>,
) -> Option<Seq<Seq<char>>> {
    let found = dedup(dests);
    let paths = if found.len() == 0 { fallback } else { found };
    let kept = keep_existing(paths, existing);
    if kept.len() == 0 {
        None
    } else {
        Some(kept)
    }
}

fn contains_text(v: &Vec<String>, p: &str) -> (r: bool)
    ensures
        r == views(v@).contains(p@),
{
    let r = listed_exec(v, p);
    proof {
        if r {
            let i = choose|i: int| 0 <= i < v@.len() && v@[i]@ == p@;
            assert(views(v@)[i] == p@);
        }
        if views(v@).contains(p@) {
            let i = choose|i: int| 0 <= i < views(v@).len() && views(v@)[i] == p@;
            assert(v@[i]@ == p@);
        }
    }
    r
}

/// The files of a finished download (see `spec_download_outputs`).
pub fn download_outputs(
    dests: &Vec<String>,
    fallback: &Vec<String>,
    existing: &Vec<String>,
) -> (r: Result<Vec<String>, CoreError>)
    ensures
        match r {
            Ok(v) => spec_download_outputs(views(dests@), views(fallback@), existing@) == Some(views(v@)),
            Err(e) => spec_download_outputs(views(dests@), views(fallback@), existing@) is None
                && (e matches CoreError::ProcessFailed { program, code, stderr } && program@ == "yt-dlp"@
                && code is None && stderr@ == "下载完成但未找到产物文件"@),
        },
{
    let ghost dv = views(dests@);
    let mut found: Vec<String> = Vec::new();
    for i in 0..dests.len()
        invariant
            dv == views(dests@),
            views(found@) == dedup(dv.take(i as int)),
    {
        proof {
            assert(dv.take(i + 1).drop_last() =~= dv.take(i as int));
        }
        if !contains_text(&found, dests[i].as_str()) {
            let ghost before = views(found@);
            found.push(dests[i].clone());
            assert(views(found@) =~= before.push(dests@[i as int]@));
        }
    }
    assert(dv.take(dests.len() as int) =~= dv);
    let paths: &Vec<String> = if found.len() == 0 {
        fallback
    } else {
        &found
    };
    let ghost pv = views(paths@);
    let mut kept: Vec<String> = Vec::new();
    for i in 0..paths.len()
        invariant
            pv == views(paths@),
            views(kept@) == keep_existing(pv.take(i as int), existing@),
    {
        proof {
            assert(pv.take(i + 1).drop_last() =~= pv.take(i as int));
        }
        if listed_exec(existing, paths[i].as_str()) {
            let ghost before = views(kept@);
            kept.push(paths[i].clone());
            assert(views(kept@) =~= before.push(paths@[i as int]@));
        }
    }
    assert(pv.take(paths.len() as int) =~= pv);
    if kept.len() == 0 {
        return Err(
            CoreError::ProcessFailed {
                program: owned("yt-dlp"),
                code: None,
                stderr: owned("下载完成但未找到产物文件"),
            },
        );
    }
    Ok(kept)
}

// ---------------------------------------------------------------------------
// Post-processing

/// What post-processing a downloaded file does: scaling it down when it is
/// taller than the quality limit, raising its audio level (see
/// `spec_gain_cdb`), or nothing.
#[derive(Debug, Clone)]
pub struct PostPlan {
    /// The file ffmpeg writes (`<input>` with extension `processed.mp4`).
    pub out: String,
    pub args: Vec<String>,
    /// Gain applied, in hundredths of a dB.
    pub gain_cdb: Option<u32>,
}

/// The file is taller than a set quality limit.
pub open spec fn spec_needs_downscale(height: Option<u32>, max_h: u32) -> bool {
    match height {
        Some(h) => h > max_h && max_h > 0,
        None => false,
    }
}

/// ffmpeg arguments of post-processing: H.265 scaled to the limit or a
/// video copy; the volume filter when the gain exceeds 0.1 dB; AAC when the
/// level is raised, an audio copy otherwise; `+faststart`; the output last.
pub open spec fn spec_post_args(
    input: Seq<char>,
    out: Seq<char>,
    down: bool,
    max_h: u32,
    gain: Option<int>,
) -> Seq<Seq<char>> {
    seq!["-i"@, input, "-map"@, "0"@] + (if down {
        seq![
            "-vf"@, "scale=-2:'min(ih,"@ + dec(max_h as nat) + ")'"@, "-c:v"@, "libx265"@, "-crf"@,
            "23"@, "-preset"@, "medium"@, "-tag:v"@, "hvc1"@,
        ]
    } else {
        seq!["-c:v"@, "copy"@]
    }) + (match gain {
        Some(g) => if g > 10 {
            seq!["-af"@, "volume="@ + centi_text(g as nat) + "dB"@]
        } else {
            seq![]
        },
        None => seq![],
    }) + seq!["-c:a"@, if gain is Some { "aac"@ } else { "copy"@ }]
        + seq!["-movflags"@, "+faststart"@, "-y"@, out]
}

/// Plans the post-processing of a downloaded file; `None` when nothing is
/// to be done.
pub fn post_process_plan(
    input: &str,
    max_h: u32,
    height: Option<u32>,
    normalize: bool,
    max_gain_cdb: u32,
    max_volume_cdb: Option<i32>,
) -> (r: Option<PostPlan>)
    ensures
        match r {
            None => !spec_needs_downscale(height, max_h)
                && spec_gain_cdb(normalize, max_gain_cdb, max_volume_cdb) is None,
            Some(plan) => {
                &&& (spec_needs_downscale(height, max_h)
                    || spec_gain_cdb(normalize, max_gain_cdb, max_volume_cdb) is Some)
                &&& plan.out@ == path_with_extension(input@, "processed.mp4"@)
                &&& match plan.gain_cdb {
                    Some(g) => spec_gain_cdb(normalize, max_gain_cdb, max_volume_cdb) == Some(g as int),
                    None => spec_gain_cdb(normalize, max_gain_cdb, max_volume_cdb) is None,
                }
                &&& views(plan.args@) == spec_post_args(
                    input@,
                    plan.out@,
                    spec_needs_downscale(height, max_h),
                    max_h,
                    spec_gain_cdb(normalize, max_gain_cdb, max_volume_cdb),
                )
            },
        },
{
    let down = match height {
        Some(h) => h > max_h && max_h > 0,
        None => false,
    };
    let gain = gain_cdb(normalize, max_gain_cdb, max_volume_cdb);
    if !down && gain.is_none() {
        return None;
    }
    proof {
        reveal_strlit("processed.mp4");
        assert(!"processed.mp4"@.contains('/'));
        assert(!"processed.mp4"@.contains('\\'));
    }
    let out = with_extension(input, "processed.mp4");
    let mut args: Vec<String> = Vec::new();
    push_lit(&mut args, "-i");
    push_lit(&mut args, input);
    push_lit(&mut args, "-map");
    push_lit(&mut args, "0");
    let ghost s1 = views(args@);
    if down {
        push_lit(&mut args, "-vf");
        let mut vf = owned("scale=-2:'min(ih,");
        push_dec(&mut vf, max_h as u64);
        push_str(&mut vf, ")'");
        push_arg(&mut args, vf);
        push_lit(&mut args, "-c:v");
        push_lit(&mut args, "libx265");
        push_lit(&mut args, "-crf");
        push_lit(&mut args, "23");
        push_lit(&mut args, "-preset");
        push_lit(&mut args, "medium");
        push_lit(&mut args, "-tag:v");
        push_lit(&mut args, "hvc1");
    } else {
        push_lit(&mut args, "-c:v");
        push_lit(&mut args, "copy");
    }
    let ghost s2 = views(args@);
    let ghost g = match gain {
        Some(x) => Some(x as int),
        None => None::<int>,
    };
    match gain {
        Some(x) => {
            if x > 10 {
                push_lit(&mut args, "-af");
                let mut v = owned("volume=");
                push_centi_text(&mut v, x);
                push_str(&mut v, "dB");
                push_arg(&mut args, v);
            }
        },
        None => {},
    }
    let ghost s3 = views(args@);
    push_lit(&mut args, "-c:a");
    if gain.is_some() {
        push_lit(&mut args, "aac");
    } else {
        push_lit(&mut args, "copy");
    }
    push_lit(&mut args, "-movflags");
    push_lit(&mut args, "+faststart");
    push_lit(&mut args, "-y");
    push_lit(&mut args, out.as_str());
    proof {
        assert(s1 =~= seq!["-i"@, input@, "-map"@, "0"@]);
        assert(s2 =~= s1 + (if down {
            seq![
                "-vf"@, "scale=-2:'min(ih,"@ + dec(max_h as nat) + ")'"@, "-c:v"@, "libx265"@, "-crf"@,
                "23"@, "-preset"@, "medium"@, "-tag:v"@, "hvc1"@,
            ]
        } else {
            seq!["-c:v"@, "copy"@]
        }));
        assert(s3 =~= s2 + (match g {
            Some(gg) => if gg > 10 {
                seq!["-af"@, "volume="@ + centi_text(gg as nat) + "dB"@]
            } else {
                seq![]
            },
            None => seq![],
        }));
        assert(views(args@) =~= spec_post_args(input@, out@, down, max_h, g));
    }
    Some(PostPlan { out, args, gain_cdb: gain })
}

/// What follows the post-processing ffmpeg run.
#[derive(Debug, Clone)]
pub enum PostFinish {
    /// Canceled: the partial output is removed and the download ends as
    /// canceled.
    Canceled,
    /// ffmpeg failed: the partial output is removed, the original file is
    /// kept, and the line is logged.
    KeepOriginal { log: String },
    /// ffmpeg succeeded: the output is renamed to `temp`, then over the
    /// original file.
    Replace { temp: String },
}

/// The log line of a failed post-processing run: its error output, trimmed.
pub open spec fn spec_post_failure_log(stderr: Seq<char>) -> Seq<char> {
    "后处理失败（保留原文件）："@ + trim(stderr)
}

/// Decides what follows the post-processing run that wrote `out`: a
/// cancel wins; a failed run keeps the original file and logs its error
/// output; a successful one replaces the original through `out` with the
/// extension `mp4.tmp`.
pub fn post_process_finish(canceled: bool, success: bool, stderr: &str, out: &str) -> (r: PostFinish)
    ensures
        canceled ==> r is Canceled,
        !canceled && !success ==> (r matches PostFinish::KeepOriginal { log } && log@ == spec_post_failure_log(
            stderr@,
        )),
        !canceled && success ==> (r matches PostFinish::Replace { temp } && temp@ == path_with_extension(
            out@,
            "mp4.tmp"@,
        )),
{
    if canceled {
        return PostFinish::Canceled;
    }
    if !success {
        let mut log = owned("后处理失败（保留原文件）：");
        let t = trim_chars(&chars_of(stderr));
        let ts = string_of(&t);
        push_str(&mut log, ts.as_str());
        return PostFinish::KeepOriginal { log };
    }
    proof {
        reveal_strlit("mp4.tmp");
        assert(!"mp4.tmp"@.contains('/'));
        assert(!"mp4.tmp"@.contains('\\'));
    }
    PostFinish::Replace { temp: with_extension(out, "mp4.tmp") }
}


/// The files of a download are distinct and all exist.
pub proof fn law_download_outputs_distinct(dests: Seq<Seq<char>>, fallback: Seq<Seq<char>>, existing: Seq<String>)
    ensures
        spec_download_outputs(dests, fallback, existing) matches Some(v) ==> (forall|i: int|
            0 <= i < v.len() ==> listed(existing, #[trigger] v[i])),
        spec_download_outputs(dests, fallback, existing) matches Some(v) ==> dests.len() > 0 ==> (
        forall|i: int, j: int| 0 <= i < j < v.len() ==> v[i] != v[j]),
{
    lemma_dedup_distinct(dests);
    let found = dedup(dests);
    let paths = if found.len() == 0 { fallback } else { found };
    lemma_keep_existing(paths, existing);
    lemma_dedup_nonempty(dests);
}

proof fn lemma_dedup_nonempty(s: Seq<Seq<char>>)
    ensures
        s.len() > 0 ==> dedup(s).len() > 0,
    decreases s.len(),
{
    if s.len() > 0 {
        lemma_dedup_nonempty(s.drop_last());
    }
}

proof fn lemma_dedup_distinct(s: Seq<Seq<char>>)
    ensures
        forall|i: int, j: int| 0 <= i < j < dedup(s).len() ==> dedup(s)[i] != dedup(s)[j],
    decreases s.len(),
{
    if s.len() > 0 {
        lemma_dedup_distinct(s.drop_last());
        let r = dedup(s.drop_last());
        if !r.contains(s.last()) {
            assert forall|i: int, j: int| 0 <= i < j < r.push(s.last()).len() implies r.push(s.last())[i]
                != r.push(s.last())[j] by {
                if j == r.len() {
                    assert(r[i] != s.last());
                }
            }
        }
    }
}

proof fn lemma_keep_existing(s: Seq<Seq<char>>, existing: Seq<String>)
    ensures
        forall|i: int| 0 <= i < keep_existing(s, existing).len() ==> listed(existing, #[trigger] keep_existing(s, existing)[i]),
        forall|i: int, j: int|
            (forall|a: int, b: int| 0 <= a < b < s.len() ==> s[a] != s[b]) && 0 <= i < j < keep_existing(s, existing).len()
                ==> keep_existing(s, existing)[i] != keep_existing(s, existing)[j],
        forall|i: int| 0 <= i < keep_existing(s, existing).len() ==> s.contains(#[trigger] keep_existing(s, existing)[i]),
    decreases s.len(),
{
    if s.len() > 0 {
        let p = s.drop_last();
        lemma_keep_existing(p, existing);
        let r = keep_existing(p, existing);
        assert forall|i: int| 0 <= i < r.len() implies s.contains(#[trigger] r[i]) by {
            let k = choose|k: int| 0 <= k < p.len() && p[k] == r[i];
            assert(s[k] == p[k]);
        }
        if listed(existing, s.last()) {
            let n = r.push(s.last());
            assert forall|i: int| 0 <= i < n.len() implies s.contains(#[trigger] n[i]) by {
                if i == r.len() {
                    assert(s[s.len() - 1] == s.last());
                }
            }
            if forall|a: int, b: int| 0 <= a < b < s.len() ==> s[a] != s[b] {
                assert forall|a: int, b: int| 0 <= a < b < p.len() implies p[a] != p[b] by {
                    assert(p[a] == s[a] && p[b] == s[b]);
                }
                assert forall|i: int, j: int| 0 <= i < j < n.len() implies n[i] != n[j] by {
                    if j == r.len() {
                        let k = choose|k: int| 0 <= k < p.len() && p[k] == r[i];
                        assert(s[k] == p[k]);
                        assert(s[s.len() - 1] == s.last());
                    }
                }
            }
        }
    }
}


/// The URL is always the last argument of a download.
pub proof fn law_download_url_last(url: Seq<char>, p: DownloadParams, cfg: DownloadConfig)
    ensures
        spec_build_args(url, p, cfg).last() == url,
        spec_build_args(url, p, cfg)[0] == "--format"@,
{
}

} // verus!
