//! Managed tool downloads: where yt-dlp, ffmpeg/ffprobe and deno come from,
//! how their SHA-256 side files are read and checked, and which archive
//! entry holds each tool.
use vstd::prelude::*;

use sha2::Digest;
use std::io::Read;
use std::sync::atomic::AtomicBool;
use std::sync::Arc;

use crate::exec::{spec_exe_name, Tool};
use crate::paths::{join, join_path};
use crate::text::{
    chars_of, hex_digit, is_ws, is_ws_exec, owned, push_dec, push_str, slice_chars, str_is,
    string_of, strip_start, take_until, trim, trim_chars, ws, dec,
};

verus! {

/// The tools that can be downloaded and kept up to date.
#[derive(Debug, Clone, Copy, PartialEq, Eq, Structural)]
pub enum ToolKind {
    YtDlp,
    Ffmpeg,
    Ffprobe,
    Deno,
}

pub open spec fn spec_from_config_key(key: Seq<char>) -> Option<ToolKind> {
    if key == "yt_dlp_path"@ {
        Some(ToolKind::YtDlp)
    } else if key == "ffmpeg_path"@ {
        Some(ToolKind::Ffmpeg)
    } else if key == "ffprobe_path"@ {
        Some(ToolKind::Ffprobe)
    } else if key == "deno_path"@ {
        Some(ToolKind::Deno)
    } else {
        None
    }
}

pub open spec fn spec_kind_exe(k: ToolKind) -> Seq<char> {
    match k {
        ToolKind::YtDlp => "yt-dlp.exe"@,
        ToolKind::Ffmpeg => "ffmpeg.exe"@,
        ToolKind::Ffprobe => "ffprobe.exe"@,
        ToolKind::Deno => "deno.exe"@,
    }
}

pub open spec fn spec_kind_url(k: ToolKind) -> Seq<char> {
    match k {
        ToolKind::YtDlp => "https://github.com/yt-dlp/yt-dlp/releases/latest/download/yt-dlp.exe"@,
        ToolKind::Ffmpeg | ToolKind::Ffprobe => "https://github.com/BtbN/FFmpeg-Builds/releases/latest/download/ffmpeg-master-latest-win64-gpl.zip"@,
        ToolKind::Deno => "https://github.com/denoland/deno/releases/latest/download/deno-x86_64-pc-windows-msvc.zip"@,
    }
}

/// The tool a kind installs.
pub open spec fn spec_kind_tool(k: ToolKind) -> Tool {
    match k {
        ToolKind::YtDlp => Tool::YtDlp,
        ToolKind::Ffmpeg => Tool::Ffmpeg,
        ToolKind::Ffprobe => Tool::Ffprobe,
        ToolKind::Deno => Tool::Deno,
    }
}

/// An installed tool is named as a Windows resolver looks for it in the
/// tools directory.
pub proof fn law_installed_name_is_windows_exe(k: ToolKind)
    ensures
        spec_kind_exe(k) == spec_exe_name(spec_kind_tool(k), true),
{
    reveal_strlit("yt-dlp.exe");
    reveal_strlit("ffmpeg.exe");
    reveal_strlit("ffprobe.exe");
    reveal_strlit("deno.exe");
    reveal_strlit("yt-dlp");
    reveal_strlit("ffmpeg");
    reveal_strlit("ffprobe");
    reveal_strlit("deno");
    reveal_strlit(".exe");
    assert(spec_kind_exe(k) =~= spec_exe_name(spec_kind_tool(k), true));
}

pub open spec fn spec_kind_zip_entry(k: ToolKind) -> Option<Seq<char>> {
    match k {
        ToolKind::Ffmpeg => Some("ffmpeg-master-latest-win64-gpl/bin/ffmpeg.exe"@),
        ToolKind::Ffprobe => Some("ffmpeg-master-latest-win64-gpl/bin/ffprobe.exe"@),
        ToolKind::Deno => Some("deno.exe"@),
        ToolKind::YtDlp => None,
    }
}

impl ToolKind {
    /// The kind behind a dependencies setting key.
    pub fn from_config_key(key: &str) -> (r: Option<Self>)
        ensures
            r == spec_from_config_key(key@),
    {
        if str_is(key, "yt_dlp_path") {
            Some(ToolKind::YtDlp)
        } else if str_is(key, "ffmpeg_path") {
            Some(ToolKind::Ffmpeg)
        } else if str_is(key, "ffprobe_path") {
            Some(ToolKind::Ffprobe)
        } else if str_is(key, "deno_path") {
            Some(ToolKind::Deno)
        } else {
            None
        }
    }

    /// File name of the installed tool.
    pub fn exe_name(&self) -> (r: &'static str)
        ensures
            r@ == spec_kind_exe(*self),
    {
        match self {
            ToolKind::YtDlp => "yt-dlp.exe",
            ToolKind::Ffmpeg => "ffmpeg.exe",
            ToolKind::Ffprobe => "ffprobe.exe",
            ToolKind::Deno => "deno.exe",
        }
    }

    /// The tool this kind installs.
    pub fn tool(&self) -> (r: Tool)
        ensures
            r == spec_kind_tool(*self),
    {
        match self {
            ToolKind::YtDlp => Tool::YtDlp,
            ToolKind::Ffmpeg => Tool::Ffmpeg,
            ToolKind::Ffprobe => Tool::Ffprobe,
            ToolKind::Deno => Tool::Deno,
        }
    }

    /// Download address (ffmpeg and ffprobe share one archive).
    pub fn url(&self) -> (r: &'static str)
        ensures
            r@ == spec_kind_url(*self),
    {
        match self {
            ToolKind::YtDlp => "https://github.com/yt-dlp/yt-dlp/releases/latest/download/yt-dlp.exe",
            ToolKind::Ffmpeg | ToolKind::Ffprobe => "https://github.com/BtbN/FFmpeg-Builds/releases/latest/download/ffmpeg-master-latest-win64-gpl.zip",
            ToolKind::Deno => "https://github.com/denoland/deno/releases/latest/download/deno-x86_64-pc-windows-msvc.zip",
        }
    }

    /// Address of the SHA-256 side file: the download address with `.sha256`.
    pub fn sha_url(&self) -> (r: Option<&'static str>)
        ensures
            r matches Some(u) && u@ == spec_kind_url(*self) + ".sha256"@,
    {
        let r = match self {
            ToolKind::YtDlp => "https://github.com/yt-dlp/yt-dlp/releases/latest/download/yt-dlp.exe.sha256",
            ToolKind::Ffmpeg | ToolKind::Ffprobe => "https://github.com/BtbN/FFmpeg-Builds/releases/latest/download/ffmpeg-master-latest-win64-gpl.zip.sha256",
            ToolKind::Deno => "https://github.com/denoland/deno/releases/latest/download/deno-x86_64-pc-windows-msvc.zip.sha256",
        };
        proof {
            reveal_strlit("https://github.com/yt-dlp/yt-dlp/releases/latest/download/yt-dlp.exe.sha256");
            reveal_strlit("https://github.com/yt-dlp/yt-dlp/releases/latest/download/yt-dlp.exe");
            reveal_strlit("https://github.com/BtbN/FFmpeg-Builds/releases/latest/download/ffmpeg-master-latest-win64-gpl.zip.sha256");
            reveal_strlit("https://github.com/BtbN/FFmpeg-Builds/releases/latest/download/ffmpeg-master-latest-win64-gpl.zip");
            reveal_strlit("https://github.com/denoland/deno/releases/latest/download/deno-x86_64-pc-windows-msvc.zip.sha256");
            reveal_strlit("https://github.com/denoland/deno/releases/latest/download/deno-x86_64-pc-windows-msvc.zip");
            reveal_strlit(".sha256");
            assert(r@ =~= spec_kind_url(*self) + ".sha256"@);
        }
        Some(r)
    }

    /// Entry of the archive that holds the tool (none for yt-dlp, which is
    /// a bare executable).
    pub fn zip_entry(&self) -> (r: Option<&'static str>)
        ensures
            match r {
                Some(e) => spec_kind_zip_entry(*self) == Some(e@),
                None => spec_kind_zip_entry(*self) is None,
            },
    {
        match self {
            ToolKind::Ffmpeg => Some("ffmpeg-master-latest-win64-gpl/bin/ffmpeg.exe"),
            ToolKind::Ffprobe => Some("ffmpeg-master-latest-win64-gpl/bin/ffprobe.exe"),
            ToolKind::Deno => Some("deno.exe"),
            ToolKind::YtDlp => None,
        }
    }
}

/// Downloads tools into `tools_dir`, staging files in `temp_dir`.
pub struct ToolDownloader {
    pub tools_dir: String,
    pub temp_dir: String,
    /// Set to abandon a running download.
    pub cancel: Option<Arc<AtomicBool>>,
}

impl ToolDownloader {
    /// A downloader without a cancel flag.
    pub fn new(tools_dir: &str, temp_dir: &str) -> (r: Self)
        ensures
            r.tools_dir@ == tools_dir@,
            r.temp_dir@ == temp_dir@,
            r.cancel is None,
    {
        ToolDownloader { tools_dir: owned(tools_dir), temp_dir: owned(temp_dir), cancel: None }
    }

    /// The same downloader with the given cancel flag.
    pub fn with_cancel(self, cancel: Option<Arc<AtomicBool>>) -> (r: Self)
        ensures
            r.tools_dir == self.tools_dir,
            r.temp_dir == self.temp_dir,
            r.cancel == cancel,
    {
        ToolDownloader { tools_dir: self.tools_dir, temp_dir: self.temp_dir, cancel }
    }

    /// Final place of a tool: `<tools_dir>/<exe>`.
    pub fn target_path(&self, kind: ToolKind) -> (r: String)
        ensures
            r@ == join(self.tools_dir@, spec_kind_exe(kind)),
    {
        join_path(self.tools_dir.as_str(), kind.exe_name())
    }

    /// Staging file of the download: `<temp_dir>/<exe>-<pid>.zip` for
    /// archives, `.bin` otherwise.
    pub fn artifact_path(&self, kind: ToolKind, pid: u32) -> (r: String)
        ensures
            r@ == join(
                self.temp_dir@,
                spec_kind_exe(kind) + seq!['-'] + dec(pid as nat) + seq!['.'] + if spec_kind_zip_entry(kind) is Some {
                    "zip"@
                } else {
                    "bin"@
                },
            ),
    {
        let mut name = owned(kind.exe_name());
        name.push('-');
        push_dec(&mut name, pid as u64);
        name.push('.');
        let ext = if kind.zip_entry().is_some() {
            "zip"
        } else {
            "bin"
        };
        push_str(&mut name, ext);
        assert(name@ =~= spec_kind_exe(kind) + seq!['-'] + dec(pid as nat) + seq!['.'] + if spec_kind_zip_entry(
            kind,
        ) is Some {
            "zip"@
        } else {
            "bin"@
        });
        join_path(self.temp_dir.as_str(), name.as_str())
    }

    /// Intermediate file of the activation: `<tools_dir>/<exe>.tmp`.
    pub fn activation_temp(&self, kind: ToolKind) -> (r: String)
        ensures
            r@ == join(self.tools_dir@, spec_kind_exe(kind) + ".tmp"@),
    {
        let mut name = owned(kind.exe_name());
        push_str(&mut name, ".tmp");
        join_path(self.tools_dir.as_str(), name.as_str())
    }
}

/// Whether a download is needed: when the tool is missing or forced.
pub fn needs_download(target_exists: bool, force: bool) -> (r: bool)
    ensures
        r == (!target_exists || force),
{
    !target_exists || force
}

/// The message of a failed download: the address, and the tool's error
/// output when there is any.
pub open spec fn spec_download_failure(url: Seq<char>, err: Seq<char>) -> Seq<char> {
    if trim(err).len() == 0 {
        "下载失败 "@ + url
    } else {
        "下载失败 "@ + url + ": "@ + trim(err)
    }
}

/// The message of a failed download.
pub fn download_failure(url: &str, err: &str) -> (r: String)
    ensures
        r@ == spec_download_failure(url@, err@),
{
    let e = trim_chars(&chars_of(err));
    let mut m = owned("下载失败 ");
    push_str(&mut m, url);
    if e.len() > 0 {
        push_str(&mut m, ": ");
        let es = string_of(&e);
        push_str(&mut m, es.as_str());
    }
    m
}

// ---------------------------------------------------------------------------
// SHA-256

/// The SHA-256 digest of some bytes (what `sha2::Sha256::digest` returns).
pub uninterp spec fn sha256_digest(data: Seq<u8>) -> Seq<u8>;

/// `sha2::Sha256::digest`. Trusted: the result is named by `sha256_digest`
/// of the input and is 32 bytes long, the digest size of SHA-256.
#[verifier::external_body]
fn sha256_bytes(data: &[u8]) -> (r: Vec<u8>)
    ensures
        r@ == sha256_digest(data@),
        r@.len() == 32,
{
    sha2::Sha256::digest(data).to_vec()
}

/// Two lowercase hexadecimal digits per byte (`{:x}` of a digest).
pub open spec fn hex_bytes(b: Seq<u8>) -> Seq<char>
    decreases b.len(),
{
    if b.len() == 0 {
        seq![]
    } else {
        hex_bytes(b.drop_last()) + seq![hex_digit((b.last() / 16) as int), hex_digit((b.last() % 16) as int)]
    }
}

fn hex_char(d: u8) -> (c: char)
    requires
        d < 16,
    ensures
        c == hex_digit(d as int),
{
    if d < 10 {
        (48u8 + d) as char
    } else {
        (87u8 + d) as char
    }
}

/// Lowercase hexadecimal text of some bytes.
pub fn hex_of(b: &[u8]) -> (r: String)
    ensures
        r@ == hex_bytes(b@),
{
    let mut s = String::new();
    for i in 0..b.len()
        invariant
            s@ == hex_bytes(b@.take(i as int)),
    {
        assert(b@.take(i + 1).drop_last() =~= b@.take(i as int));
        s.push(hex_char(b[i] / 16));
        s.push(hex_char(b[i] % 16));
    }
    assert(b@.take(b.len() as int) =~= b@);
    s
}

/// SHA-256 of some bytes as lowercase hexadecimal text.
pub fn sha256_hex(data: &[u8]) -> (r: String)
    ensures
        r@ == hex_bytes(sha256_digest(data@)),
{
    let d = sha256_bytes(data);
    hex_of(d.as_slice())
}

/// Bytes of a character in UTF-8.
pub open spec fn utf8_width(c: char) -> nat {
    if (c as u32) < 0x80 {
        1
    } else if (c as u32) < 0x800 {
        2
    } else if (c as u32) < 0x10000 {
        3
    } else {
        4
    }
}

/// Length of a text in UTF-8 bytes (`str::len`).
pub open spec fn utf8_len(s: Seq<char>) -> nat
    decreases s.len(),
{
    if s.len() == 0 {
        0
    } else {
        utf8_len(s.drop_last()) + utf8_width(s.last())
    }
}

fn utf8_width_exec(c: char) -> (r: usize)
    ensures
        r == utf8_width(c),
{
    let n = c as u32;
    if n < 0x80 {
        1
    } else if n < 0x800 {
        2
    } else if n < 0x10000 {
        3
    } else {
        4
    }
}

fn utf8_len_is(v: &Vec<char>, n: usize) -> (r: bool)
    ensures
        r == (utf8_len(v@) == n),
{
    let mut total: usize = 0;
    for i in 0..v.len()
        invariant
            total == utf8_len(v@.take(i as int)),
            total <= n,
    {
        assert(v@.take(i + 1).drop_last() =~= v@.take(i as int));
        let w = utf8_width_exec(v[i]);
        if w > n - total {
            proof {
                lemma_utf8_len_prefix(v@, i + 1);
            }
            return false;
        }
        total = total + w;
    }
    assert(v@.take(v.len() as int) =~= v@);
    total == n
}

proof fn lemma_utf8_len_prefix(s: Seq<char>, k: int)
    requires
        0 <= k <= s.len(),
    ensures
        utf8_len(s.take(k)) <= utf8_len(s),
    decreases s.len() - k,
{
    if k < s.len() {
        lemma_utf8_len_prefix(s, k + 1);
        assert(s.take(k + 1).drop_last() =~= s.take(k));
    } else {
        assert(s.take(k) =~= s);
    }
}

/// First whitespace-separated word of a text (empty when there is none).
pub open spec fn first_word(s: Seq<char>) -> Seq<char> {
    take_until(strip_start(s, ws()), ws())
}

/// The expected digest in a SHA-256 side file (`<hex>  <name>` or a bare
/// hex): its first word, when that is 64 bytes long.
pub open spec fn spec_sha_from_text(text: Seq<char>) -> Option<Seq<char>> {
    let w = trim(first_word(text));
    if utf8_len(w) == 64 {
        Some(w)
    } else {
        None
    }
}

/// Reads the expected digest from a SHA-256 side file.
pub fn sha_from_text(text: &str) -> (r: Option<String>)
    ensures
        match r {
            Some(h) => spec_sha_from_text(text@) == Some(h@),
            None => spec_sha_from_text(text@) is None,
        },
{
    let v = chars_of(text);
    let mut lo: usize = 0;
    while lo < v.len() && is_ws_exec(v[lo])
        invariant
            lo <= v.len(),
            forall|k: int| 0 <= k < lo ==> is_ws(#[trigger] v@[k]),
        decreases v.len() - lo,
    {
        lo = lo + 1;
    }
    proof {
        crate::text::lemma_strip_start_skip(v@, ws(), lo as int);
        assert(v@.skip(lo as int).len() == 0 || !ws()(v@.skip(lo as int)[0]));
    }
    let rest = slice_chars(&v, lo, v.len());
    assert(rest@ == v@.skip(lo as int));
    assert(strip_start(rest@, ws()) == rest@);
    let mut hi: usize = 0;
    while hi < rest.len() && !is_ws_exec(rest[hi])
        invariant
            hi <= rest.len(),
            forall|k: int| 0 <= k < hi ==> !ws()(#[trigger] rest@[k]),
        decreases rest.len() - hi,
    {
        hi = hi + 1;
    }
    proof {
        assert(crate::text::first_index(rest@, ws(), hi as int));
        crate::text::lemma_take_until(rest@, ws(), hi as int);
    }
    let word = slice_chars(&rest, 0, hi);
    assert(word@ == rest@.take(hi as int));
    let w = trim_chars(&word);
    if utf8_len_is(&w, 64) {
        Some(string_of(&w))
    } else {
        None
    }
}

/// ASCII letters in lower case, other characters unchanged.
pub open spec fn ascii_lower(c: char) -> char {
    if 'A' <= c && c <= 'Z' {
        ((c as u32) + 32) as char
    } else {
        c
    }
}

/// `str::eq_ignore_ascii_case`.
pub open spec fn eq_ignore_ascii_case(a: Seq<char>, b: Seq<char>) -> bool {
    a.len() == b.len() && forall|i: int| 0 <= i < a.len() ==> ascii_lower(#[trigger] a[i]) == ascii_lower(b[i])
}

fn ascii_lower_exec(c: char) -> (r: char)
    ensures
        r == ascii_lower(c),
{
    if 'A' <= c && c <= 'Z' {
        let n: u8 = (c as u32) as u8;
        assert(n as u32 == c as u32);
        (n + 32) as char
    } else {
        c
    }
}

fn eq_ignore_ascii_case_exec(a: &Vec<char>, b: &Vec<char>) -> (r: bool)
    ensures
        r == eq_ignore_ascii_case(a@, b@),
{
    if a.len() != b.len() {
        return false;
    }
    for i in 0..a.len()
        invariant
            a.len() == b.len(),
            forall|k: int| 0 <= k < i ==> ascii_lower(#[trigger] a@[k]) == ascii_lower(b@[k]),
    {
        if ascii_lower_exec(a[i]) != ascii_lower_exec(b[i]) {
            return false;
        }
    }
    true
}

/// `s.take(k)` is the longest prefix of `s` within 16 UTF-8 bytes.
pub open spec fn cut16(s: Seq<char>, k: int) -> bool {
    &&& 0 <= k <= s.len()
    &&& utf8_len(s.take(k)) <= 16
    &&& (k == s.len() || utf8_len(s.take(k + 1)) > 16)
}

proof fn lemma_utf8_len_mono(s: Seq<char>, a: int, b: int)
    requires
        0 <= a <= b <= s.len(),
    ensures
        utf8_len(s.take(a)) <= utf8_len(s.take(b)),
{
    let t = s.take(b);
    lemma_utf8_len_prefix(t, a);
    assert(t.take(a) =~= s.take(a));
}

proof fn lemma_cut16_unique(s: Seq<char>, i: int, j: int)
    requires
        cut16(s, i),
        cut16(s, j),
    ensures
        i == j,
{
    if i < j {
        lemma_utf8_len_mono(s, i + 1, j);
    } else if j < i {
        lemma_utf8_len_mono(s, j + 1, i);
    }
}

/// The check of a downloaded file against the expected digest: no expected
/// digest passes; otherwise the two must match ignoring ASCII case. The
/// message quotes the first 16 bytes of each.
pub open spec fn spec_check_digest(digest: Seq<char>, want: Seq<char>) -> Result<(), Seq<char>> {
    if want.len() == 0 || eq_ignore_ascii_case(digest, want) {
        Ok(())
    } else {
        Err(
            "SHA-256 校验失败：期望 "@ + want.take(choose|k: int| cut16(want, k)) + " 实际 "@
                + digest.take(16),
        )
    }
}

/// Checks a digest (lowercase hexadecimal, as `sha256_hex` gives) against
/// the expected one. The message cuts `want` after its first 16 bytes, so
/// that cut must fall between two characters.
pub fn check_digest(digest: &str, want: &str) -> (r: Result<(), String>)
    requires
        digest@.len() >= 16,
        forall|i: int| 0 <= i < 16 ==> (#[trigger] digest@[i] as u32) < 0x80,
        forall|k: int| cut16(want@, k) ==> k == want@.len() || utf8_len(want@.take(k)) == 16,
    ensures
        match r {
            Ok(()) => spec_check_digest(digest@, want@) == Ok::<(), Seq<char>>(()),
            Err(m) => spec_check_digest(digest@, want@) == Err::<(), Seq<char>>(m@),
        },
{
    let d = chars_of(digest);
    let w = chars_of(want);
    if w.len() == 0 || eq_ignore_ascii_case_exec(&d, &w) {
        return Ok(());
    }
    let mut k: usize = 0;
    let mut bytes: usize = 0;
    while k < w.len() && bytes + utf8_width_exec(w[k]) <= 16
        invariant
            k <= w.len(),
            bytes == utf8_len(w@.take(k as int)),
            bytes <= 16,
        decreases w.len() - k,
    {
        assert(w@.take(k + 1).drop_last() =~= w@.take(k as int));
        bytes = bytes + utf8_width_exec(w[k]);
        k = k + 1;
    }
    proof {
        if k < w.len() {
            assert(w@.take(k + 1).drop_last() =~= w@.take(k as int));
        }
        assert(cut16(w@, k as int));
        let c = choose|c: int| cut16(w@, c);
        lemma_cut16_unique(w@, k as int, c);
    }
    let wp = slice_chars(&w, 0, k);
    let dp = slice_chars(&d, 0, 16);
    let mut m = owned("SHA-256 校验失败：期望 ");
    let wps = string_of(&wp);
    push_str(&mut m, wps.as_str());
    push_str(&mut m, " 实际 ");
    let dps = string_of(&dp);
    push_str(&mut m, dps.as_str());
    Err(m)
}

// ---------------------------------------------------------------------------
// Archives

/// What reading an archive entry can fail with.
#[derive(Debug, Clone)]
pub enum ZipFault {
    /// The bytes are not a readable archive (with the reader's message).
    NotArchive(String),
    /// The archive has no entry of that name (with the reader's message).
    Missing(String),
    /// The entry could not be read out (with the reader's message).
    Read(String),
}

/// What reading entry `name` of the archive `archive` (held in memory)
/// yields: its bytes when the archive opens, has that entry and the entry
/// reads out whole; none when any of these steps fails.
pub uninterp spec fn zip_entry_bytes(archive: Seq<u8>, name: Seq<char>) -> Option<Seq<u8>>;

/// Reads one entry of an archive held in memory with the `zip` crate
/// (`ZipArchive::new` over the bytes, then `by_name` and a full read).
/// Trusted: the read succeeds exactly when `zip_entry_bytes` of the archive
/// and the name is some, and then yields those bytes; a failure names the
/// step that failed with the crate's message, whose text is not claimed.
/// Assumed, not shown: the crate reports malformed or hostile archives as
/// errors rather than panicking.
#[verifier::external_body]
fn read_zip_entry(archive: &[u8], name: &str) -> (r: Result<Vec<u8>, ZipFault>)
    ensures
        match r {
            Ok(b) => zip_entry_bytes(archive@, name@) == Some(b@),
            Err(_) => zip_entry_bytes(archive@, name@) is None,
        },
{
    let mut za = match zip::ZipArchive::new(std::io::Cursor::new(archive)) {
        Ok(z) => z,
        Err(e) => return Err(ZipFault::NotArchive(e.to_string())),
    };
    let mut entry = match za.by_name(name) {
        Ok(f) => f,
        Err(e) => return Err(ZipFault::Missing(e.to_string())),
    };
    let mut out = Vec::new();
    match entry.read_to_end(&mut out) {
        Ok(_) => Ok(out),
        Err(e) => Err(ZipFault::Read(e.to_string())),
    }
}

/// The tool's bytes from its downloaded archive: the entry's bytes when it
/// can be read; otherwise an error whose message names the step that failed.
pub fn extract_entry(archive: &[u8], name: &str) -> (r: Result<Vec<u8>, String>)
    ensures
        r is Ok <==> zip_entry_bytes(archive@, name@) is Some,
        r matches Ok(b) ==> zip_entry_bytes(archive@, name@) == Some(b@),
        r matches Err(m) ==> (exists|e: Seq<char>| m@ == "解析压缩包失败："@ + e) || m@
            == "压缩包内未找到 "@ + name@ || (exists|e: Seq<char>| m@ == "解压失败："@ + e),
{
    match read_zip_entry(archive, name) {
        Ok(b) => Ok(b),
        Err(ZipFault::NotArchive(e)) => {
            let mut m = owned("解析压缩包失败：");
            push_str(&mut m, e.as_str());
            Err(m)
        },
        Err(ZipFault::Missing(_)) => {
            let mut m = owned("压缩包内未找到 ");
            push_str(&mut m, name);
            Err(m)
        },
        Err(ZipFault::Read(e)) => {
            let mut m = owned("解压失败：");
            push_str(&mut m, e.as_str());
            Err(m)
        },
    }
}


/// A file whose digest is exactly the expected one passes the check.
pub proof fn law_digest_matches_itself(d: Seq<char>)
    ensures
        spec_check_digest(d, d) == Ok::<(), Seq<char>>(()),
{
}

/// The check ignores ASCII case: the expected digest in capitals passes too.
pub proof fn law_digest_ignores_case(d: Seq<char>, w: Seq<char>)
    requires
        eq_ignore_ascii_case(d, w),
    ensures
        spec_check_digest(d, w) == Ok::<(), Seq<char>>(()),
{
}

/// No expected digest (the side file was missing) skips the check.
pub proof fn law_no_expected_digest_passes(d: Seq<char>)
    ensures
        spec_check_digest(d, Seq::empty()) == Ok::<(), Seq<char>>(()),
{
}


proof fn lemma_ascii_utf8_len(s: Seq<char>)
    requires
        forall|i: int| 0 <= i < s.len() ==> (#[trigger] s[i] as u32) < 0x80,
    ensures
        utf8_len(s) == s.len(),
    decreases s.len(),
{
    if s.len() > 0 {
        assert(s[s.len() - 1] == s.last());
        lemma_ascii_utf8_len(s.drop_last());
    }
}

/// A SHA-256 side file in the usual form, 64 hexadecimal digits then
/// whitespace (and usually the file name), gives those digits back.
pub proof fn law_sha_side_file(h: Seq<char>, rest: Seq<char>)
    requires
        h.len() == 64,
        forall|i: int|
            0 <= i < 64 ==> ('0' <= #[trigger] h[i] <= '9' || 'a' <= h[i] <= 'f' || 'A' <= h[i] <= 'F'),
        rest.len() == 0 || is_ws(rest[0]),
    ensures
        spec_sha_from_text(h + rest) == Some(h),
{
    let t = h + rest;
    assert(!ws()(t[0]));
    assert(strip_start(t, ws()) == t);
    assert(crate::text::first_index(t, ws(), 64)) by {
        assert forall|k: int| 0 <= k < 64 implies !ws()(#[trigger] t[k]) by {
            assert(t[k] == h[k]);
        }
    }
    crate::text::lemma_take_until(t, ws(), 64);
    assert(t.take(64) =~= h);
    assert(first_word(t) == h);
    assert(!ws()(h[0]));
    assert(strip_start(h, ws()) == h);
    assert(!ws()(h.last()));
    assert(crate::text::strip_end(h, ws()) == h);
    assert(trim(h) == h);
    lemma_ascii_utf8_len(h);
}

} // verus!
