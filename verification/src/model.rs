//! Item status state machine, rotation angle, item kinds and size rendering.
use vstd::prelude::*;

use std::collections::VecDeque;

use crate::error::CoreError;
use crate::text::{dec, dec_pad, dec_string, digit, join_strings, join_with, owned, push_arg, push_dec, push_dec_pad, push_str, views};


verus! {

/// Status of a list item.
#[derive(Debug, Clone, Copy, PartialEq, Eq, Hash, Structural)]
pub enum Status {
    /// Metadata is being fetched or probed.
    Probing,
    /// Metadata is known; download, transcode and merge actions are available.
    Ready,
    Downloading,
    PostProcessing,
    Transcoding,
    Merging,
    Done,
    Failed,
    Canceled,
    /// Login is required; the item resumes after logging in.
    NeedLogin,
}

/// Filter groups of the status drop-down.
#[derive(Debug, Clone, Copy, PartialEq, Eq, Hash, Structural)]
pub enum StatusGroup {
    All,
    Single(Status),
    Working,
}

pub open spec fn spec_is_terminal(s: Status) -> bool {
    s == Status::Done || s == Status::Failed || s == Status::Canceled
}

pub open spec fn spec_is_recoverable(s: Status) -> bool {
    s == Status::NeedLogin || s == Status::Failed
}

/// The statuses during which an external process is working on the item.
pub open spec fn spec_is_working(s: Status) -> bool {
    s == Status::Downloading || s == Status::PostProcessing || s == Status::Transcoding || s
        == Status::Merging
}

pub open spec fn spec_group(s: Status) -> StatusGroup {
    if spec_is_working(s) {
        StatusGroup::Working
    } else {
        StatusGroup::Single(s)
    }
}

pub open spec fn spec_label(s: Status) -> Seq<char> {
    match s {
        Status::Probing => "解析中"@,
        Status::Ready => "已就绪"@,
        Status::Downloading => "下载中"@,
        Status::PostProcessing => "后处理中"@,
        Status::Transcoding => "转码中"@,
        Status::Merging => "合并中"@,
        Status::Done => "已完成"@,
        Status::Failed => "失败"@,
        Status::Canceled => "已取消"@,
        Status::NeedLogin => "需要登录"@,
    }
}

impl Status {
    /// Terminal statuses allow only deletion and retry.
    pub fn is_terminal(self) -> (r: bool)
        ensures
            r == spec_is_terminal(self),
    {
        match self {
            Status::Done | Status::Failed | Status::Canceled => true,
            _ => false,
        }
    }

    /// Recoverable failures come with guidance for the user.
    pub fn is_recoverable(self) -> (r: bool)
        ensures
            r == spec_is_recoverable(self),
    {
        match self {
            Status::NeedLogin | Status::Failed => true,
            _ => false,
        }
    }

    /// The status as shown in the list.
    pub fn label(self) -> (r: &'static str)
        ensures
            r@ == spec_label(self),
    {
        match self {
            Status::Probing => "解析中",
            Status::Ready => "已就绪",
            Status::Downloading => "下载中",
            Status::PostProcessing => "后处理中",
            Status::Transcoding => "转码中",
            Status::Merging => "合并中",
            Status::Done => "已完成",
            Status::Failed => "失败",
            Status::Canceled => "已取消",
            Status::NeedLogin => "需要登录",
        }
    }

    /// Filter group: the four working statuses form one group.
    pub fn group(self) -> (r: StatusGroup)
        ensures
            r == spec_group(self),
    {
        match self {
            Status::Downloading | Status::PostProcessing | Status::Transcoding
            | Status::Merging => StatusGroup::Working,
            _ => StatusGroup::Single(self),
        }
    }
}

/// The allowed status changes.
pub open spec fn allowed_transition(from: Status, to: Status) -> bool {
    match (from, to) {
        (Status::Probing, Status::Ready) | (Status::Probing, Status::Failed) | (
            Status::Probing,
            Status::Canceled,
        ) | (Status::Probing, Status::NeedLogin) | (Status::Ready, Status::Downloading) | (
            Status::Ready,
            Status::Transcoding,
        ) | (Status::Ready, Status::Merging) | (Status::Ready, Status::Canceled) | (
            Status::Downloading,
            Status::PostProcessing,
        ) | (Status::Downloading, Status::Failed) | (Status::Downloading, Status::Canceled) | (
            Status::Downloading,
            Status::NeedLogin,
        ) | (Status::PostProcessing, Status::Done) | (Status::PostProcessing, Status::Failed) | (
            Status::PostProcessing,
            Status::Canceled,
        ) | (Status::Done, Status::Transcoding) | (Status::Done, Status::Merging) | (
            Status::Transcoding,
            Status::Done,
        ) | (Status::Transcoding, Status::Failed) | (Status::Transcoding, Status::Canceled) | (
            Status::Merging,
            Status::Done,
        ) | (Status::Merging, Status::Failed) | (Status::Merging, Status::Canceled) | (
            Status::Done,
            Status::Probing,
        ) | (Status::Failed, Status::Probing) | (Status::Failed, Status::NeedLogin) | (
            Status::Canceled,
            Status::Probing,
        ) | (Status::NeedLogin, Status::Probing) => true,
        _ => false,
    }
}

/// Checks a status change against the state machine: `Ok(to)` when allowed,
/// otherwise `InvalidTransition { from, to }`.
pub fn transition(from: Status, to: Status) -> (r: Result<Status, CoreError>)
    ensures
        allowed_transition(from, to) ==> r == Ok::<Status, CoreError>(to),
        !allowed_transition(from, to) ==> (r matches Err(CoreError::InvalidTransition {
            from: f,
            to: t,
        }) && f == from && t == to),
{
    let ok = match (from, to) {
        (Status::Probing, Status::Ready) | (Status::Probing, Status::Failed) | (
            Status::Probing,
            Status::Canceled,
        ) | (Status::Probing, Status::NeedLogin) | (Status::Ready, Status::Downloading) | (
            Status::Ready,
            Status::Transcoding,
        ) | (Status::Ready, Status::Merging) | (Status::Ready, Status::Canceled) | (
            Status::Downloading,
            Status::PostProcessing,
        ) | (Status::Downloading, Status::Failed) | (Status::Downloading, Status::Canceled) | (
            Status::Downloading,
            Status::NeedLogin,
        ) | (Status::PostProcessing, Status::Done) | (Status::PostProcessing, Status::Failed) | (
            Status::PostProcessing,
            Status::Canceled,
        ) | (Status::Done, Status::Transcoding) | (Status::Done, Status::Merging) | (
            Status::Transcoding,
            Status::Done,
        ) | (Status::Transcoding, Status::Failed) | (Status::Transcoding, Status::Canceled) | (
            Status::Merging,
            Status::Done,
        ) | (Status::Merging, Status::Failed) | (Status::Merging, Status::Canceled) | (
            Status::Done,
            Status::Probing,
        ) | (Status::Failed, Status::Probing) | (Status::Failed, Status::NeedLogin) | (
            Status::Canceled,
            Status::Probing,
        ) | (Status::NeedLogin, Status::Probing) => true,
        _ => false,
    };
    if ok {
        Ok(to)
    } else {
        Err(CoreError::InvalidTransition { from, to })
    }
}


/// Normalization of a number of degrees to a quarter turn: `(deg / 90) % 4 * 90`.
pub open spec fn norm_degrees(deg: int) -> int {
    (deg / 90) % 4 * 90
}

/// The four quarter turns.
pub open spec fn is_quarter_turn(d: int) -> bool {
    d == 0 || d == 90 || d == 180 || d == 270
}

/// Rotation angle of an item: 0, 90, 180 or 270 degrees.
#[derive(Debug, Clone, Copy, PartialEq, Eq, Structural)]
pub struct RotAngle(u16);

impl RotAngle {
    #[verifier::type_invariant]
    spec fn inv(self) -> bool {
        is_quarter_turn(self.0 as int)
    }

    /// The angle in degrees.
    pub closed spec fn deg(self) -> int {
        self.0 as int
    }

    /// The zero angle.
    pub fn zero() -> (r: Self)
        ensures
            r.deg() == 0,
    {
        RotAngle(0)
    }

    /// Rounds down to a quarter turn and wraps at a full turn.
    pub fn from_degrees(deg: u16) -> (r: Self)
        ensures
            r.deg() == norm_degrees(deg as int),
            is_quarter_turn(r.deg()),
    {
        RotAngle((deg / 90) % 4 * 90)
    }

    pub fn degrees(self) -> (r: u16)
        ensures
            r as int == self.deg(),
            is_quarter_turn(r as int),
    {
        proof {
            use_type_invariant(self);
        }
        self.0
    }

    /// A quarter turn clockwise.
    pub fn rotate_cw(self) -> (r: Self)
        ensures
            r.deg() == norm_degrees(self.deg() + 90),
            is_quarter_turn(r.deg()),
    {
        proof {
            use_type_invariant(self);
        }
        Self::from_degrees(self.0 + 90)
    }

    /// A quarter turn counter-clockwise.
    pub fn rotate_ccw(self) -> (r: Self)
        ensures
            r.deg() == norm_degrees(self.deg() + 270),
            is_quarter_turn(r.deg()),
    {
        proof {
            use_type_invariant(self);
        }
        Self::from_degrees(self.0 + 270)
    }
}

impl Default for RotAngle {
    fn default() -> (r: Self)
        ensures
            r.deg() == 0,
    {
        RotAngle(0)
    }
}

/// Every normalized angle is a quarter turn, and normalizing twice changes nothing.
pub proof fn law_norm_degrees(deg: int)
    requires
        deg >= 0,
    ensures
        is_quarter_turn(norm_degrees(deg)),
        norm_degrees(norm_degrees(deg)) == norm_degrees(deg),
{
}

/// A clockwise quarter turn followed by a counter-clockwise one (or the other way
/// round) gives back the angle.
pub proof fn law_rotate_inverse(d: int)
    requires
        is_quarter_turn(d),
    ensures
        norm_degrees(norm_degrees(d + 90) + 270) == d,
        norm_degrees(norm_degrees(d + 270) + 90) == d,
{
}

/// Four clockwise quarter turns give back the angle.
pub proof fn law_rotate_full_turn(d: int)
    requires
        is_quarter_turn(d),
    ensures
        norm_degrees(norm_degrees(norm_degrees(norm_degrees(d + 90) + 90) + 90) + 90) == d,
{
}

/// Kind of a list item.
#[derive(Debug, Clone, Copy, PartialEq, Eq, Hash, Structural)]
pub enum ItemKind {
    /// A URL to download.
    UrlTask,
    /// A local file or directory.
    LocalFile,
    /// The output of a transcode.
    TranscodeOut,
    /// The output of a merge.
    MergeOut,
}

impl ItemKind {
    /// Only URL tasks can be downloaded.
    pub fn is_download_source(self) -> (r: bool)
        ensures
            r == (self == ItemKind::UrlTask),
    {
        match self {
            ItemKind::UrlTask => true,
            _ => false,
        }
    }
}


/// A site may ask for a login only while an item is probed or downloaded
/// (cookies missing or expired), or after it failed: `NeedLogin` is reached
/// from exactly `Probing`, `Downloading` and `Failed`.
pub proof fn law_need_login_entry(s: Status)
    ensures
        allowed_transition(s, Status::NeedLogin) <==> (s == Status::Probing || s == Status::Downloading
            || s == Status::Failed),
{
}

/// A download ends in post-processing, fails, is canceled or needs a
/// login, and goes nowhere else.
pub proof fn law_download_exits(t: Status)
    ensures
        allowed_transition(Status::Downloading, t) <==> (t == Status::PostProcessing || t == Status::Failed
            || t == Status::Canceled || t == Status::NeedLogin),
{
}

/// A ready item may be downloaded, transcoded, merged or canceled, and
/// nothing else.
pub proof fn law_ready_exits(t: Status)
    ensures
        allowed_transition(Status::Ready, t) <==> (t == Status::Downloading || t == Status::Transcoding
            || t == Status::Merging || t == Status::Canceled),
{
}

/// Post-processing, transcoding and merging end done, failed or canceled,
/// and nowhere else.
pub proof fn law_work_exits(s: Status, t: Status)
    requires
        s == Status::PostProcessing || s == Status::Transcoding || s == Status::Merging,
    ensures
        allowed_transition(s, t) <==> (t == Status::Done || t == Status::Failed || t == Status::Canceled),
{
}

/// Every terminal status may be retried by going back to `Probing`.
pub proof fn law_terminal_can_retry(s: Status)
    requires
        spec_is_terminal(s),
    ensures
        allowed_transition(s, Status::Probing),
{
}

/// `Probing` is re-entered only from a terminal status or after logging in.
pub proof fn law_probing_entry(s: Status)
    ensures
        allowed_transition(s, Status::Probing) <==> (spec_is_terminal(s) || s == Status::NeedLogin),
{
}

/// `Ready` is reached only from `Probing`.
pub proof fn law_ready_only_from_probing(s: Status)
    ensures
        allowed_transition(s, Status::Ready) <==> s == Status::Probing,
{
}

/// `Done` is reached only from post-processing, transcoding or merging.
pub proof fn law_done_only_from_work(s: Status)
    ensures
        allowed_transition(s, Status::Done) <==> (s == Status::PostProcessing || s
            == Status::Transcoding || s == Status::Merging),
{
}

/// No status changes into itself.
pub proof fn law_no_self_transition(s: Status)
    ensures
        !allowed_transition(s, s),
{
}

/// Every working status may fail or be canceled.
pub proof fn law_working_can_fail_or_cancel(s: Status)
    requires
        spec_is_working(s),
    ensures
        allowed_transition(s, Status::Failed),
        allowed_transition(s, Status::Canceled),
{
}

/// From every status, `Probing` is reachable in one or two allowed steps.
pub proof fn law_probing_reachable(s: Status)
    ensures
        allowed_transition(s, Status::Probing) || allowed_transition(s, Status::Canceled)
            && allowed_transition(Status::Canceled, Status::Probing) || allowed_transition(
            s,
            Status::Failed,
        ) && allowed_transition(Status::Failed, Status::Probing),
{
}

// ---------------------------------------------------------------------------
// Sizes

/// `num / den` rounded to the nearest integer, ties to even.
pub open spec fn round_half_even(num: nat, den: nat) -> nat
    recommends
        den > 0,
{
    let q = num / den;
    let r = num % den;
    if 2 * r > den {
        q + 1
    } else if 2 * r < den {
        q
    } else if q % 2 == 0 {
        q
    } else {
        q + 1
    }
}

/// `bytes / unit` with one decimal, as `{:.1}` renders the quotient.
pub open spec fn one_decimal(bytes: nat, unit: nat) -> Seq<char> {
    let t = round_half_even(bytes * 10, unit);
    dec(t / 10) + seq!['.'] + seq![digit((t % 10) as int)]
}

/// Human-readable size: GB, MB or KB with one decimal, else whole bytes.
pub open spec fn spec_human_size(bytes: nat) -> Seq<char> {
    if bytes >= 1024 * 1024 * 1024 {
        one_decimal(bytes, 1024 * 1024 * 1024) + "GB"@
    } else if bytes >= 1024 * 1024 {
        one_decimal(bytes, 1024 * 1024) + "MB"@
    } else if bytes >= 1024 {
        one_decimal(bytes, 1024) + "KB"@
    } else {
        dec(bytes) + "B"@
    }
}

fn push_one_decimal(s: &mut String, bytes: u64, unit: u64)
    requires
        unit > 0,
    ensures
        final(s)@ == old(s)@ + one_decimal(bytes as nat, unit as nat),
{
    let num: u128 = (bytes as u128) * 10;
    let den: u128 = unit as u128;
    let q = num / den;
    let r = num % den;
    let t: u128 = if 2 * r > den {
        q + 1
    } else if 2 * r < den {
        q
    } else if q % 2 == 0 {
        q
    } else {
        q + 1
    };
    assert(t == round_half_even(bytes as nat * 10, unit as nat));
    assert(q <= num) by (nonlinear_arith)
        requires
            q == num / den,
            den > 0,
    ;
    assert(t / 10 <= u64::MAX);
    push_dec(s, (t / 10) as u64);
    s.push('.');
    let d = (t % 10) as u64;
    s.push(crate::text::digit_exec(d));
}

/// Human-readable size (`1.0KB`, `34.0MB`, `2.0GB`, `512B`).
pub fn human_size(bytes: u64) -> (r: String)
    ensures
        r@ == spec_human_size(bytes as nat),
{
    let mut s = String::new();
    if bytes >= 1024 * 1024 * 1024 {
        push_one_decimal(&mut s, bytes, 1024 * 1024 * 1024);
        push_str(&mut s, "GB");
    } else if bytes >= 1024 * 1024 {
        push_one_decimal(&mut s, bytes, 1024 * 1024);
        push_str(&mut s, "MB");
    } else if bytes >= 1024 {
        push_one_decimal(&mut s, bytes, 1024);
        push_str(&mut s, "KB");
    } else {
        push_dec(&mut s, bytes);
        push_str(&mut s, "B");
    }
    s
}

// ---------------------------------------------------------------------------
// Item log and list text

/// Log lines kept per item.
pub const MAX_LOG_LINES: usize = 300;

/// The last `n` elements of `s` (all of it when shorter).
pub open spec fn last_n<T>(s: Seq<T>, n: nat) -> Seq<T> {
    if s.len() <= n {
        s
    } else {
        s.skip(s.len() - n)
    }
}

/// Appends a log line, keeping only the newest `MAX_LOG_LINES` lines.
pub fn push_log(log: &mut VecDeque<String>, line: String)
    ensures
        final(log)@ == last_n(old(log)@.push(line), MAX_LOG_LINES as nat),
{
    let ghost all = log@.push(line);
    log.push_back(line);
    while log.len() > MAX_LOG_LINES
        invariant
            all.len() >= log@.len(),
            log@ == all.skip(all.len() - log@.len()),
            all.len() > MAX_LOG_LINES ==> log@.len() >= MAX_LOG_LINES,
            all.len() <= MAX_LOG_LINES ==> log@ == all,
        decreases log@.len(),
    {
        let ghost before = log@;
        let _ = log.pop_front();
        assert(log@ =~= all.skip(all.len() - log@.len()));
    }
    proof {
        if all.len() <= MAX_LOG_LINES {
            assert(log@ == all);
        } else {
            assert(log@.len() == MAX_LOG_LINES);
        }
    }
}

/// Appending keeps at most `MAX_LOG_LINES` lines, the new line last, the
/// older lines in order before it.
pub proof fn law_log_bounded(old_log: Seq<String>, line: String)
    ensures
        last_n(old_log.push(line), MAX_LOG_LINES as nat).len() <= MAX_LOG_LINES,
        last_n(old_log.push(line), MAX_LOG_LINES as nat).last() == line,
        old_log.len() < MAX_LOG_LINES ==> last_n(old_log.push(line), MAX_LOG_LINES as nat) == old_log.push(line),
{
}

/// The second line of a list row: `<site> · <url>` for a URL (站点 when the
/// site is unknown), `本地文件 · <path>` for a local file, otherwise empty.
pub open spec fn spec_subline(url: Option<Seq<char>>, site: Option<Seq<char>>, path: Option<Seq<char>>) -> Seq<char> {
    match url {
        Some(u) => (match site {
            Some(s) => s,
            None => "站点"@,
        }) + " · "@ + u,
        None => match path {
            Some(p) => "本地文件 · "@ + p,
            None => Seq::empty(),
        },
    }
}

pub open spec fn opt_text_of(o: Option<String>) -> Option<Seq<char>> {
    match o {
        Some(s) => Some(s@),
        None => None,
    }
}

/// The second line of a list row.
pub fn subline(url: &Option<String>, site: &Option<String>, path: &Option<String>) -> (r: String)
    ensures
        r@ == spec_subline(opt_text_of(*url), opt_text_of(*site), opt_text_of(*path)),
{
    match url {
        Some(u) => {
            let mut s = match site {
                Some(s) => s.clone(),
                None => owned("站点"),
            };
            push_str(&mut s, " · ");
            push_str(&mut s, u.as_str());
            s
        },
        None => match path {
            Some(p) => {
                let mut s = owned("本地文件 · ");
                push_str(&mut s, p.as_str());
                s
            },
            None => String::new(),
        },
    }
}


// ---------------------------------------------------------------------------
// Quality column

/// The fields of the quality column. Frame rate and level come already
/// formatted (`{:.0}` and `{:.1}` of the measured values) and the duration
/// as whole minutes and the second within the minute.
#[derive(Debug, Clone)]
pub struct QualityFields {
    pub container: Option<String>,
    pub height: Option<u32>,
    pub vcodec: Option<String>,
    pub vbitrate_kbps: Option<u32>,
    pub fps_text: Option<String>,
    pub acodec: Option<String>,
    pub abitrate_kbps: Option<u32>,
    pub audio_tracks: Option<u32>,
    pub volume_text: Option<String>,
    pub duration_mmss: Option<(u64, u64)>,
    pub size_bytes: Option<u64>,
}

/// A present text as a one-piece list.
pub open spec fn piece(o: Option<String>, suffix: Seq<char>) -> Seq<Seq<char>> {
    match o {
        Some(s) => seq![s@ + suffix],
        None => seq![],
    }
}

/// A present number in decimal with a suffix, as a one-piece list.
pub open spec fn num_piece(o: Option<u32>, suffix: Seq<char>) -> Seq<Seq<char>> {
    match o {
        Some(n) => seq![dec(n as nat) + suffix],
        None => seq![],
    }
}

/// The pieces of the quality column: container, `<h>P`, video codec,
/// `<Mbps>Mbps` (kbps rounded to the nearest thousand), `<fps>fps`, audio
/// codec, `<kbps>k`, `<n>轨`, `<level>dB`, `MM:SS`, size.
pub open spec fn spec_quality_parts(q: QualityFields) -> Seq<Seq<char>> {
    piece(q.container, Seq::empty()) + num_piece(q.height, "P"@) + piece(q.vcodec, Seq::empty())
        + (match q.vbitrate_kbps {
        Some(b) => seq![dec(((b + 500) / 1000) as nat) + "Mbps"@],
        None => seq![],
    }) + piece(q.fps_text, "fps"@) + piece(q.acodec, Seq::empty()) + num_piece(q.abitrate_kbps, "k"@)
        + num_piece(q.audio_tracks, "轨"@) + piece(q.volume_text, "dB"@) + (match q.duration_mmss {
        Some((m, s)) => seq![dec_pad(m as nat, 2) + seq![':'] + dec_pad(s as nat, 2)],
        None => seq![],
    }) + (match q.size_bytes {
        Some(b) => seq![spec_human_size(b as nat)],
        None => seq![],
    })
}

fn push_piece(parts: &mut Vec<String>, o: &Option<String>, suffix: &str)
    ensures
        views(final(parts)@) == views(old(parts)@) + piece(*o, suffix@),
{
    let ghost before = views(parts@);
    match o {
        Some(s) => {
            let mut t = s.clone();
            push_str(&mut t, suffix);
            push_arg(parts, t);
        },
        None => {},
    }
    assert(views(parts@) =~= before + piece(*o, suffix@));
}

fn push_num_piece(parts: &mut Vec<String>, o: Option<u32>, suffix: &str)
    ensures
        views(final(parts)@) == views(old(parts)@) + num_piece(o, suffix@),
{
    let ghost before = views(parts@);
    match o {
        Some(n) => {
            let mut t = dec_string(n as u64);
            push_str(&mut t, suffix);
            push_arg(parts, t);
        },
        None => {},
    }
    assert(views(parts@) =~= before + num_piece(o, suffix@));
}

/// The quality column: its pieces joined with ` · `.
pub fn quality_text(q: &QualityFields) -> (r: String)
    requires
        match q.vbitrate_kbps {
            Some(b) => b + 500 <= u32::MAX,
            None => true,
        },
    ensures
        r@ == join_with(spec_quality_parts(*q), " · "@),
{
    let mut parts: Vec<String> = Vec::new();
    proof {
        reveal_strlit("");
    }
    assert(views(parts@) =~= Seq::<Seq<char>>::empty());
    push_piece(&mut parts, &q.container, "");
    push_num_piece(&mut parts, q.height, "P");
    push_piece(&mut parts, &q.vcodec, "");
    let ghost s1 = views(parts@);
    match q.vbitrate_kbps {
        Some(b) => {
            let mut t = dec_string(((b + 500) / 1000) as u64);
            push_str(&mut t, "Mbps");
            push_arg(&mut parts, t);
        },
        None => {},
    }
    let ghost s2 = views(parts@);
    push_piece(&mut parts, &q.fps_text, "fps");
    push_piece(&mut parts, &q.acodec, "");
    push_num_piece(&mut parts, q.abitrate_kbps, "k");
    push_num_piece(&mut parts, q.audio_tracks, "轨");
    push_piece(&mut parts, &q.volume_text, "dB");
    let ghost s3 = views(parts@);
    match q.duration_mmss {
        Some((m, s)) => {
            let mut t = String::new();
            push_dec_pad(&mut t, m, 2);
            t.push(':');
            push_dec_pad(&mut t, s, 2);
            assert(t@ =~= dec_pad(m as nat, 2) + seq![':'] + dec_pad(s as nat, 2));
            push_arg(&mut parts, t);
        },
        None => {},
    }
    let ghost s4 = views(parts@);
    match q.size_bytes {
        Some(b) => {
            push_arg(&mut parts, human_size(b));
        },
        None => {},
    }
    proof {
        assert(s1 =~= piece(q.container, Seq::empty()) + num_piece(q.height, "P"@) + piece(q.vcodec, Seq::empty()));
        assert(s3 =~= s2 + piece(q.fps_text, "fps"@) + piece(q.acodec, Seq::empty()) + num_piece(q.abitrate_kbps, "k"@)
            + num_piece(q.audio_tracks, "轨"@) + piece(q.volume_text, "dB"@));
        assert(s2 =~= s1 + (match q.vbitrate_kbps {
            Some(b) => seq![dec(((b + 500) / 1000) as nat) + "Mbps"@],
            None => seq![],
        }));
        assert(s4 =~= s3 + (match q.duration_mmss {
            Some((m, s)) => seq![dec_pad(m as nat, 2) + seq![':'] + dec_pad(s as nat, 2)],
            None => seq![],
        }));
        assert(views(parts@) =~= s4 + (match q.size_bytes {
            Some(b) => seq![spec_human_size(b as nat)],
            None => seq![],
        }));
        assert(views(parts@) =~= spec_quality_parts(*q));
    }
    join_strings(&parts, " · ")
}

} // verus!
