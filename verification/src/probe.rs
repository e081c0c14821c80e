//! Reading what the probing tools report: yt-dlp's failures, ffmpeg's
//! volumedetect lines, ffprobe's container names, and the pieces of a
//! format label.
use vstd::prelude::*;

use crate::model::{human_size, spec_human_size};
use crate::text::{
    dec, dec_string, join_strings, join_with, push_arg, push_str, chars_of, contains, ends_with, owned, slice_chars, split_char, split_char_exec, split_once,
    split_once_exec, starts_with, starts_with_exec, str_contains, str_is, string_of, to_lowercase,
    to_uppercase, trim, trim_chars, unicode_lowercase, unicode_uppercase, views,
};

verus! {

/// Which tool a probe ran.
#[derive(Debug, Clone, Copy, PartialEq, Eq, Structural)]
pub enum ProbeSource {
    YtDlp,
    Ffprobe,
}

/// Kinds of probe failure.
#[derive(Debug, Clone, Copy, PartialEq, Eq, Structural)]
pub enum ProbeErrorKind {
    /// Network unreachable or timed out.
    Network,
    /// Login needed (cookies missing, expired or refused).
    NeedLogin,
    /// The link is invalid or points to nothing.
    InvalidLink,
    /// Not a video, or the local probe failed.
    NotVideo,
    /// Any other failure.
    Failed,
}

/// A failed probe: its kind and a short message.
#[derive(Debug, Clone)]
pub struct ProbeFailure {
    pub kind: ProbeErrorKind,
    pub message: String,
}

impl ProbeFailure {
    /// The text shown for the failure: its message.
    pub fn to_string(&self) -> (r: String)
        ensures
            r@ == self.message@,
    {
        self.message.clone()
    }
}

/// One entry of a playlist.
#[derive(Debug, Clone)]
pub struct PlaylistEntry {
    pub url: String,
    pub title: String,
}

// ---------------------------------------------------------------------------
// Lines

/// `s` without one trailing carriage return.
pub open spec fn strip_cr(s: Seq<char>) -> Seq<char> {
    if s.len() > 0 && s.last() == '\r' {
        s.drop_last()
    } else {
        s
    }
}

/// What `str::lines` yields: pieces between `\n`, without a final empty
/// piece, each piece that a `\n` ends losing one trailing `\r`.
pub open spec fn spec_lines(s: Seq<char>) -> Seq<Seq<char>> {
    let parts = split_char(s, '\n');
    let ended = s.len() == 0 || s.last() == '\n';
    let n = if ended { parts.len() - 1 } else { parts.len() as int };
    Seq::new(n as nat, |k: int| if k < parts.len() - 1 { strip_cr(parts[k]) } else { parts[k] })
}

proof fn lemma_split_nonempty(s: Seq<char>, sep: char)
    ensures
        split_char(s, sep).len() >= 1,
{
}

/// The lines of `s`, as `str::lines` gives them.
pub fn lines_of(s: &str) -> (r: Vec<String>)
    ensures
        views(r@) == spec_lines(s@),
{
    let v = chars_of(s);
    let parts = split_char_exec(&v, '\n');
    let ghost ps = split_char(s@, '\n');
    proof {
        lemma_split_nonempty(s@, '\n');
    }
    let ended = v.len() == 0 || v[v.len() - 1] == '\n';
    let n: usize = if ended { parts.len() - 1 } else { parts.len() };
    let ghost want = spec_lines(s@);
    assert(want.len() == n);
    let mut out: Vec<String> = Vec::new();
    for k in 0..n
        invariant
            n <= parts.len(),
            ps == parts@.map_values(|w: Vec<char>| w@),
            ps.len() == parts.len(),
            want == spec_lines(s@),
            want.len() == n,
            ps == split_char(s@, '\n'),
            views(out@) =~= want.take(k as int),
    {
        let p = &parts[k];
        assert(p@ == ps[k as int]);
        let line = if k + 1 < parts.len() && p.len() > 0 && p[p.len() - 1] == '\r' {
            let t = slice_chars(p, 0, p.len() - 1);
            assert(t@ =~= p@.drop_last());
            string_of(&t)
        } else {
            string_of(p)
        };
        assert(line@ == want[k as int]);
        let ghost before = views(out@);
        out.push(line);
        assert(views(out@) =~= before.push(line@));
        assert(want.take(k + 1) =~= want.take(k as int).push(want[k as int]));
    }
    assert(want.take(n as int) =~= want);
    out
}

// ---------------------------------------------------------------------------
// yt-dlp failures

/// Kind of a yt-dlp failure, from its lowercased error output: login hints
/// first, then network trouble, then missing pages, then "unavailable"
/// (treated as needing login).
pub open spec fn spec_probe_kind(lower: Seq<char>) -> ProbeErrorKind {
    if contains(lower, "sign in"@) || contains(lower, "login"@) || contains(lower, "需要登录"@)
        || contains(lower, "private"@) || contains(lower, "log in"@) || contains(lower, "members only"@) {
        ProbeErrorKind::NeedLogin
    } else if contains(lower, "unable to download webpage"@) || contains(lower, "timed out"@)
        || contains(lower, "connection"@) || contains(lower, "网络不可达"@) {
        ProbeErrorKind::Network
    } else if contains(lower, "does not exist"@) || contains(lower, "404"@) || contains(
        lower,
        "invalid url"@,
    ) {
        ProbeErrorKind::InvalidLink
    } else if contains(lower, "video unavailable"@) || contains(lower, "unavailable"@) {
        ProbeErrorKind::NeedLogin
    } else {
        ProbeErrorKind::Failed
    }
}

/// Last line of the output, or 未知错误 when there is none.
pub open spec fn spec_last_line(s: Seq<char>) -> Seq<char> {
    let ls = spec_lines(s);
    if ls.len() == 0 {
        "未知错误"@
    } else {
        ls.last()
    }
}

/// Kind of a failure from already lowercased error output.
pub fn probe_error_kind(lower: &str) -> (r: ProbeErrorKind)
    ensures
        r == spec_probe_kind(lower@),
{
    let l = chars_of(lower);
    if str_contains(&l, "sign in") || str_contains(&l, "login") || str_contains(&l, "需要登录")
        || str_contains(&l, "private") || str_contains(&l, "log in") || str_contains(&l, "members only") {
        ProbeErrorKind::NeedLogin
    } else if str_contains(&l, "unable to download webpage") || str_contains(&l, "timed out")
        || str_contains(&l, "connection") || str_contains(&l, "网络不可达") {
        ProbeErrorKind::Network
    } else if str_contains(&l, "does not exist") || str_contains(&l, "404") || str_contains(
        &l,
        "invalid url",
    ) {
        ProbeErrorKind::InvalidLink
    } else if str_contains(&l, "video unavailable") || str_contains(&l, "unavailable") {
        ProbeErrorKind::NeedLogin
    } else {
        ProbeErrorKind::Failed
    }
}

/// Last line of the output, or 未知错误.
pub fn last_line(s: &str) -> (r: String)
    ensures
        r@ == spec_last_line(s@),
{
    let ls = lines_of(s);
    if ls.len() == 0 {
        owned("未知错误")
    } else {
        ls[ls.len() - 1].clone()
    }
}

/// Classifies yt-dlp's error output; the message is its last line.
pub fn classify_ytdlp_error(stderr: &str) -> (r: ProbeFailure)
    ensures
        r.kind == spec_probe_kind(unicode_lowercase(stderr@)),
        r.message@ == spec_last_line(stderr@),
{
    let lower = to_lowercase(stderr);
    let kind = probe_error_kind(lower.as_str());
    ProbeFailure { kind, message: last_line(stderr) }
}

// ---------------------------------------------------------------------------
// volumedetect

/// `s` with every trailing copy of `p` removed (`trim_end_matches`).
pub open spec fn strip_suffix_rep(s: Seq<char>, p: Seq<char>) -> Seq<char>
    decreases s.len(),
{
    if p.len() > 0 && ends_with(s, p) {
        strip_suffix_rep(s.take(s.len() - p.len()), p)
    } else {
        s
    }
}

/// The second piece of `s` split at `] ` (what `split("] ").nth(1)` gives).
pub open spec fn second_piece(s: Seq<char>) -> Option<Seq<char>> {
    match split_once(s, "] "@) {
        Some((_, after)) => Some(
            match split_once(after, "] "@) {
                Some((a, _)) => a,
                None => after,
            },
        ),
        None => None,
    }
}

/// The number text of a volumedetect line for `key` (`mean_volume: ` or
/// `max_volume: `): the line, trimmed, starts with `[Parsed_volumedetect`,
/// its second `] `-piece starts with the key, and the rest loses its ` dB`
/// suffixes and surrounding whitespace.
pub open spec fn volume_text(line: Seq<char>, key: Seq<char>) -> Option<Seq<char>> {
    let t = trim(line);
    if starts_with(t, "[Parsed_volumedetect"@) {
        match second_piece(t.skip(20)) {
            Some(f) => if starts_with(f, key) {
                Some(trim(strip_suffix_rep(f.skip(key.len() as int), " dB"@)))
            } else {
                None
            },
            None => None,
        }
    } else {
        None
    }
}

/// The value of the last line that reports `key`.
pub open spec fn last_volume_text(lines: Seq<Seq<char>>, key: Seq<char>) -> Option<Seq<char>>
    decreases lines.len(),
{
    if lines.len() == 0 {
        None
    } else {
        match volume_text(lines.last(), key) {
            Some(v) => Some(v),
            None => last_volume_text(lines.drop_last(), key),
        }
    }
}

fn strip_suffix_rep_exec(s: &Vec<char>, p: &Vec<char>) -> (r: Vec<char>)
    ensures
        r@ == strip_suffix_rep(s@, p@),
    decreases s.len(),
{
    if p.len() > 0 && crate::text::ends_with_exec(s, p) {
        let t = slice_chars(s, 0, s.len() - p.len());
        assert(t@ == s@.take(s@.len() - p@.len()));
        strip_suffix_rep_exec(&t, p)
    } else {
        s.clone()
    }
}

fn second_piece_exec(s: &Vec<char>) -> (r: Option<Vec<char>>)
    ensures
        match r {
            Some(v) => second_piece(s@) == Some(v@),
            None => second_piece(s@) is None,
        },
{
    let sep = chars_of("] ");
    match split_once_exec(s, &sep) {
        Some((_, after)) => match split_once_exec(&after, &sep) {
            Some((a, _)) => Some(a),
            None => Some(after),
        },
        None => None,
    }
}

fn volume_text_exec(line: &Vec<char>, key: &str) -> (r: Option<Vec<char>>)
    ensures
        match r {
            Some(v) => volume_text(line@, key@) == Some(v@),
            None => volume_text(line@, key@) is None,
        },
{
    let t = trim_chars(line);
    let head = chars_of("[Parsed_volumedetect");
    proof {
        reveal_strlit("[Parsed_volumedetect");
    }
    if !starts_with_exec(&t, &head) {
        return None;
    }
    let rest = slice_chars(&t, 20, t.len());
    assert(rest@ == t@.skip(20));
    match second_piece_exec(&rest) {
        Some(f) => {
            let k = chars_of(key);
            if starts_with_exec(&f, &k) {
                let v = slice_chars(&f, k.len(), f.len());
                assert(v@ == f@.skip(k@.len() as int));
                let db = chars_of(" dB");
                let s = strip_suffix_rep_exec(&v, &db);
                Some(trim_chars(&s))
            } else {
                None
            }
        },
        None => None,
    }
}

/// The texts of the last mean and peak volumes in volumedetect output.
pub fn volumedetect_texts(stderr: &str) -> (r: (Option<String>, Option<String>))
    ensures
        match r.0 {
            Some(v) => last_volume_text(spec_lines(stderr@), "mean_volume: "@) == Some(v@),
            None => last_volume_text(spec_lines(stderr@), "mean_volume: "@) is None,
        },
        match r.1 {
            Some(v) => last_volume_text(spec_lines(stderr@), "max_volume: "@) == Some(v@),
            None => last_volume_text(spec_lines(stderr@), "max_volume: "@) is None,
        },
{
    let ls = lines_of(stderr);
    let ghost all = views(ls@);
    let mut mean: Option<String> = None;
    let mut max: Option<String> = None;
    for i in 0..ls.len()
        invariant
            all == views(ls@),
            all == spec_lines(stderr@),
            match mean {
                Some(v) => last_volume_text(all.take(i as int), "mean_volume: "@) == Some(v@),
                None => last_volume_text(all.take(i as int), "mean_volume: "@) is None,
            },
            match max {
                Some(v) => last_volume_text(all.take(i as int), "max_volume: "@) == Some(v@),
                None => last_volume_text(all.take(i as int), "max_volume: "@) is None,
            },
    {
        let v = chars_of(ls[i].as_str());
        proof {
            assert(all.take(i + 1).drop_last() =~= all.take(i as int));
            assert(all.take(i + 1).last() == v@);
        }
        match volume_text_exec(&v, "mean_volume: ") {
            Some(x) => {
                mean = Some(string_of(&x));
            },
            None => {},
        }
        match volume_text_exec(&v, "max_volume: ") {
            Some(x) => {
                max = Some(string_of(&x));
            },
            None => {},
        }
    }
    assert(all.take(ls.len() as int) =~= all);
    (mean, max)
}

// ---------------------------------------------------------------------------
// Names shown for containers and codecs

/// Container shown for an ffprobe `format_name`: MP4 whenever mp4 is among
/// the names, otherwise the first name in upper case.
pub open spec fn spec_container_label(format_name: Seq<char>) -> Seq<char> {
    let lower = unicode_lowercase(format_name);
    if contains(lower, "mp4"@) {
        "MP4"@
    } else {
        unicode_uppercase(split_char(lower, ',')[0])
    }
}

/// The container label from an already lowercased `format_name`.
pub fn container_label_of_lower(lower: &str) -> (r: String)
    ensures
        r@ == (if contains(lower@, "mp4"@) {
            "MP4"@
        } else {
            unicode_uppercase(split_char(lower@, ',')[0])
        }),
{
    let l = chars_of(lower);
    if str_contains(&l, "mp4") {
        owned("MP4")
    } else {
        let parts = split_char_exec(&l, ',');
        proof {
            lemma_split_nonempty(lower@, ',');
        }
        assert(parts@[0]@ == split_char(lower@, ',')[0]);
        let first = string_of(&parts[0]);
        to_uppercase(first.as_str())
    }
}

/// Container shown for an ffprobe `format_name`.
pub fn container_label(format_name: &str) -> (r: String)
    ensures
        r@ == spec_container_label(format_name@),
{
    let lower = to_lowercase(format_name);
    container_label_of_lower(lower.as_str())
}

/// Short name of a lowercased video codec.
pub open spec fn spec_short_vcodec(lower: Seq<char>) -> Seq<char> {
    if lower == "av01"@ {
        "AV1"@
    } else if lower == "avc1"@ || lower == "h264"@ || lower == "h.264"@ {
        "H.264"@
    } else if lower == "hevc"@ || lower == "h265"@ || lower == "h.265"@ {
        "H.265"@
    } else if lower == "vp9"@ {
        "VP9"@
    } else {
        lower
    }
}

/// Short name of a lowercased audio codec.
pub open spec fn spec_short_acodec(lower: Seq<char>) -> Seq<char> {
    if lower == "mp4a"@ || lower == "aac"@ {
        "AAC"@
    } else if lower == "opus"@ {
        "Opus"@
    } else {
        lower
    }
}

/// Short name of a video codec as shown in format labels.
pub fn short_vcodec(codec: &str) -> (r: String)
    ensures
        r@ == spec_short_vcodec(unicode_lowercase(codec@)),
{
    let l = to_lowercase(codec);
    let s = l.as_str();
    if str_is(s, "av01") {
        owned("AV1")
    } else if str_is(s, "avc1") || str_is(s, "h264") || str_is(s, "h.264") {
        owned("H.264")
    } else if str_is(s, "hevc") || str_is(s, "h265") || str_is(s, "h.265") {
        owned("H.265")
    } else if str_is(s, "vp9") {
        owned("VP9")
    } else {
        l.clone()
    }
}

/// Short name of an audio codec as shown in format labels.
pub fn short_acodec(codec: &str) -> (r: String)
    ensures
        r@ == spec_short_acodec(unicode_lowercase(codec@)),
{
    let l = to_lowercase(codec);
    let s = l.as_str();
    if str_is(s, "mp4a") || str_is(s, "aac") {
        owned("AAC")
    } else if str_is(s, "opus") {
        owned("Opus")
    } else {
        l.clone()
    }
}

/// A format carries video unless its codec is missing or `none`, `n/a` or
/// `images` (in any case).
pub open spec fn spec_has_video(vcodec: Option<Seq<char>>) -> bool {
    match vcodec {
        Some(c) => {
            let l = unicode_lowercase(c);
            !(l == "none"@ || l == "n/a"@ || l == "images"@)
        },
        None => false,
    }
}

/// Whether a format with this video codec carries video.
pub fn has_video(vcodec: &Option<String>) -> (r: bool)
    ensures
        r == spec_has_video(
            match vcodec {
                Some(c) => Some(c@),
                None => None,
            },
        ),
{
    match vcodec {
        Some(c) => {
            let l = to_lowercase(c.as_str());
            let s = l.as_str();
            !(str_is(s, "none") || str_is(s, "n/a") || str_is(s, "images"))
        },
        None => false,
    }
}

/// A playlist entry from an entry's `url`, `webpage_url` and `title`: the
/// URL is `url` when present, else `webpage_url`; an empty URL gives none.
pub open spec fn spec_playlist_entry(
    url: Option<Seq<char>>,
    webpage_url: Option<Seq<char>>,
    title: Option<Seq<char>>,
) -> Option<(Seq<char>, Seq<char>)> {
    let u = match url {
        Some(u) => u,
        None => match webpage_url {
            Some(w) => w,
            None => Seq::empty(),
        },
    };
    if u.len() == 0 {
        None
    } else {
        Some(
            (
                u,
                match title {
                    Some(t) => t,
                    None => Seq::empty(),
                },
            ),
        )
    }
}

pub open spec fn opt_seq(o: Option<String>) -> Option<Seq<char>> {
    match o {
        Some(s) => Some(s@),
        None => None,
    }
}

/// The playlist entry for one element of a flat playlist, if it has a URL.
pub fn playlist_entry(
    url: Option<String>,
    webpage_url: Option<String>,
    title: Option<String>,
) -> (r: Option<PlaylistEntry>)
    ensures
        match r {
            Some(e) => spec_playlist_entry(opt_seq(url), opt_seq(webpage_url), opt_seq(title))
                == Some((e.url@, e.title@)),
            None => spec_playlist_entry(opt_seq(url), opt_seq(webpage_url), opt_seq(title)) is None,
        },
{
    let u = match url {
        Some(u) => u,
        None => match webpage_url {
            Some(w) => w,
            None => String::new(),
        },
    };
    if u.as_str().unicode_len() == 0 {
        None
    } else {
        let t = match title {
            Some(t) => t,
            None => String::new(),
        };
        Some(PlaylistEntry { url: u, title: t })
    }
}

/// Whether yt-dlp describes a playlist: its `_type` is `playlist` or it
/// counts more than one entry.
pub open spec fn spec_is_playlist(kind: Option<Seq<char>>, count: Option<u64>) -> bool {
    kind == Some("playlist"@) || match count {
        Some(c) => c > 1,
        None => false,
    }
}

/// Whether yt-dlp describes a playlist.
pub fn is_playlist(kind: &Option<String>, count: Option<u64>) -> (r: bool)
    ensures
        r == spec_is_playlist(opt_seq(*kind), count),
{
    let k = match kind {
        Some(s) => str_is(s.as_str(), "playlist"),
        None => false,
    };
    k || match count {
        Some(c) => c > 1,
        None => false,
    }
}

/// The site of a probe: the extractor's name, none when it is empty.
pub fn site_of(extractor: &str) -> (r: Option<String>)
    ensures
        match r {
            Some(s) => extractor@.len() > 0 && s@ == extractor@,
            None => extractor@.len() == 0,
        },
{
    if extractor.unicode_len() == 0 {
        None
    } else {
        Some(owned(extractor))
    }
}

/// The first occurrence of each id is kept, in order.
pub open spec fn spec_first_ids(ids: Seq<Seq<char>>) -> Seq<int>
    decreases ids.len(),
{
    if ids.len() == 0 {
        Seq::empty()
    } else {
        let rest = spec_first_ids(ids.drop_last());
        if exists|j: int| 0 <= j < ids.len() - 1 && ids[j] == ids.last() {
            rest
        } else {
            rest.push(ids.len() - 1)
        }
    }
}

/// Positions of the first occurrence of each id, in order (what keeping
/// the first format of each `format_id` keeps).
pub fn first_ids(ids: &Vec<String>) -> (r: Vec<usize>)
    ensures
        r@.map_values(|i: usize| i as int) == spec_first_ids(views(ids@)),
{
    let ghost all = views(ids@);
    let mut out: Vec<usize> = Vec::new();
    for i in 0..ids.len()
        invariant
            all == views(ids@),
            out@.map_values(|k: usize| k as int) == spec_first_ids(all.take(i as int)),
    {
        let ghost pre = all.take(i as int);
        proof {
            assert(all.take(i + 1).drop_last() =~= pre);
            assert(all.take(i + 1).last() == all[i as int]);
        }
        let key = chars_of(ids[i].as_str());
        let mut seen = false;
        let mut j: usize = 0;
        while j < i
            invariant
                j <= i,
                i < ids.len(),
                all == views(ids@),
                key@ == all[i as int],
                seen <==> exists|k: int| 0 <= k < j && all[k] == all[i as int],
            decreases i - j,
        {
            let other = chars_of(ids[j].as_str());
            assert(other@ == all[j as int]);
            let ghost was = seen;
            if crate::text::chars_eq(&other, &key) {
                seen = true;
            }
            proof {
                if seen && !was {
                    assert(all[j as int] == all[i as int]);
                }
                if was {
                    let k = choose|k: int| 0 <= k < j && all[k] == all[i as int];
                    assert(0 <= k < j + 1);
                }
                if !seen {
                    assert forall|k: int| 0 <= k < j + 1 implies all[k] != all[i as int] by {
                        if k < j {
                        } else {
                            assert(k == j);
                        }
                    }
                }
            }
            j = j + 1;
        }
        proof {
            let next = all.take(i + 1);
            assert(forall|k: int| 0 <= k < i ==> next[k] == all[k]);
            assert(next.last() == all[i as int]);
            if seen {
                let k = choose|k: int| 0 <= k < i && all[k] == all[i as int];
                assert(next[k] == next.last());
            }
            if !seen && exists|k: int| 0 <= k < next.len() - 1 && next[k] == next.last() {
                let k = choose|k: int| 0 <= k < next.len() - 1 && next[k] == next.last();
                assert(all[k] == all[i as int]);
            }
        }
        if !seen {
            let ghost o = out@.map_values(|k: usize| k as int);
            out.push(i);
            assert(out@.map_values(|k: usize| k as int) =~= o.push(i as int));
        }
    }
    assert(all.take(ids.len() as int) =~= all);
    out
}


// ---------------------------------------------------------------------------
// Format labels

/// The fields of a download format's label; the frame rate comes already
/// formatted (`{:.0}` of the measured value).
#[derive(Debug, Clone)]
pub struct LabelFields {
    pub height: Option<u32>,
    pub audio_only: bool,
    pub ext: Option<String>,
    pub vcodec: Option<String>,
    pub acodec: Option<String>,
    pub filesize_bytes: Option<u64>,
    pub fps_text: Option<String>,
}

/// The pieces of a format label: `<h>P` (仅音频 for audio, else 自适应),
/// container in capitals, short video and audio codec names, size, `<fps>fps`.
pub open spec fn spec_label_parts(l: LabelFields) -> Seq<Seq<char>> {
    seq![
        match l.height {
            Some(h) => dec(h as nat) + "P"@,
            None => if l.audio_only {
                "仅音频"@
            } else {
                "自适应"@
            },
        },
    ] + (match l.ext {
        Some(e) => seq![unicode_uppercase(e@)],
        None => seq![],
    }) + (match l.vcodec {
        Some(c) => seq![spec_short_vcodec(unicode_lowercase(c@))],
        None => seq![],
    }) + (match l.acodec {
        Some(c) => seq![spec_short_acodec(unicode_lowercase(c@))],
        None => seq![],
    }) + (match l.filesize_bytes {
        Some(b) => seq![spec_human_size(b as nat)],
        None => seq![],
    }) + (match l.fps_text {
        Some(f) => seq![f@ + "fps"@],
        None => seq![],
    })
}

pub open spec fn label_head(l: LabelFields) -> Seq<char> {
    match l.height {
        Some(h) => dec(h as nat) + "P"@,
        None => if l.audio_only {
            "仅音频"@
        } else {
            "自适应"@
        },
    }
}

pub open spec fn label_codecs(l: LabelFields) -> Seq<Seq<char>> {
    (match l.vcodec {
        Some(c) => seq![spec_short_vcodec(unicode_lowercase(c@))],
        None => seq![],
    }) + (match l.acodec {
        Some(c) => seq![spec_short_acodec(unicode_lowercase(c@))],
        None => seq![],
    })
}

pub open spec fn label_tail(l: LabelFields) -> Seq<Seq<char>> {
    (match l.filesize_bytes {
        Some(b) => seq![spec_human_size(b as nat)],
        None => seq![],
    }) + (match l.fps_text {
        Some(f) => seq![f@ + "fps"@],
        None => seq![],
    })
}

proof fn lemma_label_parts(l: LabelFields)
    ensures
        spec_label_parts(l) =~= seq![label_head(l)] + (match l.ext {
            Some(e) => seq![unicode_uppercase(e@)],
            None => seq![],
        }) + label_codecs(l) + label_tail(l),
{
}

fn push_label_codecs(parts: &mut Vec<String>, l: &LabelFields)
    ensures
        views(final(parts)@) == views(old(parts)@) + label_codecs(*l),
{
    let ghost s0 = views(parts@);
    match &l.vcodec {
        Some(c) => push_arg(parts, short_vcodec(c.as_str())),
        None => {},
    }
    let ghost s1 = views(parts@);
    match &l.acodec {
        Some(c) => push_arg(parts, short_acodec(c.as_str())),
        None => {},
    }
    assert(views(parts@) =~= s0 + label_codecs(*l));
}

fn push_label_tail(parts: &mut Vec<String>, l: &LabelFields)
    ensures
        views(final(parts)@) == views(old(parts)@) + label_tail(*l),
{
    let ghost s0 = views(parts@);
    match l.filesize_bytes {
        Some(b) => push_arg(parts, human_size(b)),
        None => {},
    }
    match &l.fps_text {
        Some(f) => {
            let mut t = f.clone();
            push_str(&mut t, "fps");
            push_arg(parts, t);
        },
        None => {},
    }
    assert(views(parts@) =~= s0 + label_tail(*l));
}

/// A format's label: its pieces joined with ` · `.
pub fn format_label(l: &LabelFields) -> (r: String)
    ensures
        r@ == join_with(spec_label_parts(*l), " · "@),
{
    let mut parts: Vec<String> = Vec::new();
    let first = match l.height {
        Some(h) => {
            let mut t = dec_string(h as u64);
            push_str(&mut t, "P");
            t
        },
        None => if l.audio_only {
            owned("仅音频")
        } else {
            owned("自适应")
        },
    };
    push_arg(&mut parts, first);
    let ghost s1 = views(parts@);
    assert(s1 =~= seq![label_head(*l)]);
    match &l.ext {
        Some(e) => push_arg(&mut parts, to_uppercase(e.as_str())),
        None => {},
    }
    let ghost s2 = views(parts@);
    assert(s2 =~= s1 + (match l.ext {
        Some(e) => seq![unicode_uppercase(e@)],
        None => seq![],
    }));
    push_label_codecs(&mut parts, l);
    push_label_tail(&mut parts, l);
    proof {
        lemma_label_parts(*l);
        assert(views(parts@) =~= spec_label_parts(*l));
    }
    join_strings(&parts, " · ")
}

} // verus!
