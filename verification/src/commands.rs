//! Decisions behind the desktop commands: cleaning pasted URLs, default
//! names and time stamps, time-range input, which items an action takes,
//! and the status an item is left in.
use vstd::prelude::*;

use crate::calendar::{date_of, datetime_string, spec_hms, spec_ymd_compact, spec_ymd_dashed, unix_now_secs, ymd_compact};
use crate::error::{spec_error_text, CoreError};
use crate::exec::{spec_first_line, spec_resolve, tool_version, FileFacts, Tool, ToolResolver};
use crate::model::{allowed_transition, spec_label, transition, ItemKind, Status};
use crate::paths::{join, join_path};
use crate::probe::ProbeErrorKind;
use crate::text::{
    chars_of, is_char, owned, push_str, split_char, split_char_exec, strip_end, strip_start,
    string_of, trim, trim_chars, trim_matches_char,
};

verus! {

// ---------------------------------------------------------------------------
// Names and stamps

/// A pasted URL without surrounding whitespace and quotes.
pub open spec fn spec_clean_url(raw: Seq<char>) -> Seq<char> {
    let a = trim(raw);
    let b = strip_end(strip_start(a, is_char('"')), is_char('"'));
    let c = strip_end(strip_start(b, is_char('\'')), is_char('\''));
    trim(c)
}

/// Cleans a pasted URL (yt-dlp normalizes the rest).
pub fn clean_url(raw: &str) -> (r: String)
    ensures
        r@ == spec_clean_url(raw@),
{
    let a = trim_chars(&chars_of(raw));
    let b = trim_matches_char(&a, '"');
    let c = trim_matches_char(&b, '\'');
    let d = trim_chars(&c);
    string_of(&d)
}

/// Today's date as `YYYYMMDD` (UTC).
pub fn today_stamp() -> (r: String)
    ensures
        exists|secs: u64, y: int, m: int, d: int| date_of(secs, y, m, d) && r@ == spec_ymd_compact(y, m, d),
{
    let secs = unix_now_secs();
    ymd_compact(secs)
}

/// Default name of a merge output: 合并_ and today's stamp.
pub fn default_merge_name() -> (r: String)
    ensures
        exists|secs: u64, y: int, m: int, d: int|
            date_of(secs, y, m, d) && r@ == "合并_"@ + spec_ymd_compact(y, m, d),
{
    let stamp = today_stamp();
    let mut r = owned("合并_");
    push_str(&mut r, stamp.as_str());
    r
}

/// The current time as `YYYY-MM-DD HH:MM:SS` (UTC).
pub fn now_str() -> (r: String)
    ensures
        exists|secs: u64, y: int, m: int, d: int|
            date_of(secs, y, m, d) && r@ == spec_ymd_dashed(y, m, d) + seq![' '] + spec_hms(
                (secs % 86400) as nat,
            ),
{
    let secs = unix_now_secs();
    datetime_string(secs)
}

// ---------------------------------------------------------------------------
// Dependencies page

/// One row of the dependencies check.
#[derive(Debug, Clone)]
pub struct ToolStatus {
    pub tool: String,
    pub path: Option<String>,
    pub version: Option<String>,
    pub ok: bool,
}

/// The row of `tool`: where it resolves and the first line of its version
/// output (`version_output`, when it could be run); not ok when it does not
/// resolve.
pub fn dependency_status(
    resolver: &ToolResolver,
    facts: &FileFacts,
    tool: Tool,
    version_output: Option<String>,
) -> (r: ToolStatus)
    ensures
        r.tool@ == crate::exec::spec_tool_name(tool),
        r.ok == spec_resolve(resolver.configured(tool), resolver.exe(tool), *facts) is Some,
        match (r.path, spec_resolve(resolver.configured(tool), resolver.exe(tool), *facts)) {
            (Some(p), Some(q)) => p@ == q,
            (None, None) => true,
            _ => false,
        },
        r.ok ==> match version_output {
            Some(o) => match r.version {
                Some(v) => spec_first_line(o@) == Some(v@),
                None => spec_first_line(o@) is None,
            },
            None => r.version is None,
        },
        !r.ok ==> r.version is None,
{
    match resolver.resolve(tool, facts) {
        Ok(p) => {
            let version = match version_output {
                Some(o) => tool_version(o.as_str()),
                None => None,
            };
            ToolStatus { tool: owned(tool.name()), path: Some(p), version, ok: true }
        },
        Err(_) => ToolStatus { tool: owned(tool.name()), path: None, version: None, ok: false },
    }
}

// ---------------------------------------------------------------------------
// Time ranges

/// One field of a time: one or two ASCII digits.
pub open spec fn time_field(p: Seq<char>) -> bool {
    1 <= p.len() <= 2 && forall|i: int| 0 <= i < p.len() ==> '0' <= #[trigger] p[i] <= '9'
}

/// A time of a range: empty, or three `:`-separated fields of one or two digits.
pub open spec fn spec_valid_time(t: Seq<char>) -> bool {
    t.len() == 0 || {
        let parts = split_char(t, ':');
        parts.len() == 3 && forall|i: int| 0 <= i < 3 ==> time_field(#[trigger] parts[i])
    }
}

fn time_field_exec(p: &Vec<char>) -> (r: bool)
    ensures
        r == time_field(p@),
{
    if p.len() < 1 || p.len() > 2 {
        return false;
    }
    for i in 0..p.len()
        invariant
            forall|k: int| 0 <= k < i ==> '0' <= #[trigger] p@[k] <= '9',
    {
        if !('0' <= p[i] && p[i] <= '9') {
            return false;
        }
    }
    true
}

/// Whether a time of a range is well formed.
pub fn valid_time(t: &str) -> (r: bool)
    ensures
        r == spec_valid_time(t@),
{
    let v = chars_of(t);
    if v.len() == 0 {
        return true;
    }
    let parts = split_char_exec(&v, ':');
    let ghost ps = split_char(t@, ':');
    assert(parts@.len() == ps.len());
    if parts.len() != 3 {
        return false;
    }
    assert(parts@[0]@ == ps[0]);
    assert(parts@[1]@ == ps[1]);
    assert(parts@[2]@ == ps[2]);
    let a = time_field_exec(&parts[0]);
    let b = time_field_exec(&parts[1]);
    let c = time_field_exec(&parts[2]);
    proof {
        if a && b && c {
            assert forall|i: int| 0 <= i < 3 implies time_field(#[trigger] ps[i]) by {
                if i == 0 {
                } else if i == 1 {
                } else {
                }
            }
        }
    }
    a && b && c
}

/// The time range of a download: none when both ends are empty; an error
/// when either end is malformed.
pub open spec fn spec_sections(start: Seq<char>, end: Seq<char>) -> Result<Option<(Seq<char>, Seq<char>)>, Seq<char>> {
    if !spec_valid_time(start) || !spec_valid_time(end) {
        Err("时间格式应为 HH:MM:SS（如 00:01:00）"@)
    } else if start.len() == 0 && end.len() == 0 {
        Ok(None)
    } else {
        Ok(Some((start, end)))
    }
}

/// Reads a time range from the two input fields.
pub fn sections_of(start: String, end: String) -> (r: Result<Option<(String, String)>, String>)
    ensures
        match r {
            Ok(None) => spec_sections(start@, end@) == Ok::<Option<(Seq<char>, Seq<char>)>, Seq<char>>(None),
            Ok(Some((a, b))) => spec_sections(start@, end@) == Ok::<Option<(Seq<char>, Seq<char>)>, Seq<char>>(Some((a@, b@))),
            Err(m) => spec_sections(start@, end@) == Err::<Option<(Seq<char>, Seq<char>)>, Seq<char>>(m@),
        },
{
    if !valid_time(start.as_str()) || !valid_time(end.as_str()) {
        return Err(owned("时间格式应为 HH:MM:SS（如 00:01:00）"));
    }
    if start.as_str().unicode_len() == 0 && end.as_str().unicode_len() == 0 {
        Ok(None)
    } else {
        Ok(Some((start, end)))
    }
}

// ---------------------------------------------------------------------------
// Statuses after work

/// Status of an item whose transcode or merge ended: a local file is ready
/// again; download and transcode products (and merge outputs) are done, and
/// may be transcoded again.
pub open spec fn spec_restore_status(kind: ItemKind) -> Status {
    match kind {
        ItemKind::LocalFile => Status::Ready,
        _ => Status::Done,
    }
}

/// Status an item returns to after its transcode or merge.
pub fn restore_status(kind: ItemKind) -> (r: Status)
    ensures
        r == spec_restore_status(kind),
{
    match kind {
        ItemKind::LocalFile => Status::Ready,
        _ => Status::Done,
    }
}

/// After a transcode or merge every item may be transcoded (or merged)
/// again from the status it returns to.
pub proof fn law_restored_can_transcode(kind: ItemKind)
    ensures
        allowed_transition(spec_restore_status(kind), Status::Transcoding),
        allowed_transition(spec_restore_status(kind), Status::Merging),
{
}

/// Outcome of finished work: done on success, canceled when it was
/// canceled, failed otherwise.
pub fn finish_status(err: &Option<CoreError>) -> (r: Status)
    ensures
        r == match err {
            None => Status::Done,
            Some(CoreError::Cancelled) => Status::Canceled,
            Some(_) => Status::Failed,
        },
{
    match err {
        None => Status::Done,
        Some(CoreError::Cancelled) => Status::Canceled,
        Some(_) => Status::Failed,
    }
}

/// Status after a failed probe: login needed, or failed.
pub fn probe_failure_status(kind: ProbeErrorKind) -> (r: Status)
    ensures
        r == (if kind == ProbeErrorKind::NeedLogin { Status::NeedLogin } else { Status::Failed }),
{
    match kind {
        ProbeErrorKind::NeedLogin => Status::NeedLogin,
        _ => Status::Failed,
    }
}

/// A download may start only from Ready; the new status is Downloading.
pub fn download_start(status: Status) -> (r: Result<Status, String>)
    ensures
        status == Status::Ready ==> r == Ok::<Status, String>(Status::Downloading),
        status != Status::Ready ==> (r matches Err(m) && m@ == "当前状态不可下载："@ + spec_label(status)),
{
    if status != Status::Ready {
        let mut m = owned("当前状态不可下载：");
        push_str(&mut m, status.label());
        return Err(m);
    }
    match transition(status, Status::Downloading) {
        Ok(s) => Ok(s),
        Err(e) => Err(e.to_string()),
    }
}

/// The output directory: the command line's, else the configured one, else
/// the user's desktop (`USERPROFILE`, then `HOME`), else `<root>/output`.
/// Empty settings do not count.
pub open spec fn spec_output_dir(
    cli: Option<Seq<char>>,
    configured: Option<Seq<char>>,
    profile: Option<Seq<char>>,
    home: Option<Seq<char>>,
    root: Seq<char>,
) -> Seq<char> {
    if cli is Some && cli->0.len() > 0 {
        cli->0
    } else if configured is Some && configured->0.len() > 0 {
        configured->0
    } else if profile is Some {
        join(profile->0, "Desktop"@)
    } else if home is Some {
        join(home->0, "Desktop"@)
    } else {
        join(root, "output"@)
    }
}

pub open spec fn opt_str(o: Option<String>) -> Option<Seq<char>> {
    match o {
        Some(s) => Some(s@),
        None => None,
    }
}

/// Chooses the output directory.
pub fn output_dir(
    cli: Option<String>,
    configured: Option<String>,
    profile: Option<String>,
    home: Option<String>,
    root: &str,
) -> (r: String)
    ensures
        r@ == spec_output_dir(opt_str(cli), opt_str(configured), opt_str(profile), opt_str(home), root@),
{
    if let Some(d) = &cli {
        if d.as_str().unicode_len() > 0 {
            return d.clone();
        }
    }
    if let Some(d) = &configured {
        if d.as_str().unicode_len() > 0 {
            return d.clone();
        }
    }
    match profile {
        Some(p) => join_path(p.as_str(), "Desktop"),
        None => match home {
            Some(h) => join_path(h.as_str(), "Desktop"),
            None => join_path(root, "output"),
        },
    }
}

// ---------------------------------------------------------------------------
// Choosing the items of a batch action

/// An item named in a batch action, as the list holds it.
#[derive(Debug, Clone)]
pub struct Candidate {
    pub id: String,
    /// Whether the list has the item.
    pub present: bool,
    /// Whether the item has a local file.
    pub has_file: bool,
    pub status: Status,
}

/// What a batch action takes: the items it moves (with their new status),
/// the items it skips (with the log line), and whether it stopped at an
/// item the list does not have.
#[derive(Debug, Clone)]
pub struct Selection {
    pub accepted: Vec<(String, Status)>,
    pub skipped: Vec<(String, String)>,
    pub missing: bool,
}

pub open spec fn spec_selection(
    cands: Seq<Candidate>,
    to: Status,
    no_file: Seq<char>,
    prefix: Seq<char>,
) -> (Seq<(Seq<char>, Status)>, Seq<(Seq<char>, Seq<char>)>, bool)
    decreases cands.len(),
{
    if cands.len() == 0 {
        (Seq::empty(), Seq::empty(), false)
    } else {
        let (acc, skip, missing) = spec_selection(cands.drop_last(), to, no_file, prefix);
        let c = cands.last();
        if missing {
            (acc, skip, true)
        } else if !c.present {
            (acc, skip, true)
        } else if !c.has_file {
            (acc, skip.push((c.id@, no_file)), false)
        } else if !allowed_transition(c.status, to) {
            (
                acc,
                skip.push(
                    (c.id@, prefix + spec_error_text(CoreError::InvalidTransition { from: c.status, to })),
                ),
                false,
            )
        } else {
            (acc.push((c.id@, to)), skip, false)
        }
    }
}

pub open spec fn accepted_views(v: Seq<(String, Status)>) -> Seq<(Seq<char>, Status)> {
    v.map_values(|p: (String, Status)| (p.0@, p.1))
}

pub open spec fn skipped_views(v: Seq<(String, String)>) -> Seq<(Seq<char>, Seq<char>)> {
    v.map_values(|p: (String, String)| (p.0@, p.1@))
}

/// Goes through the items in order: one the list lacks stops the batch;
/// one without a local file is skipped with `no_file`; one whose status
/// cannot move to `to` is skipped with `prefix` and the refusal; the others
/// move to `to`.
pub fn select_for(cands: &Vec<Candidate>, to: Status, no_file: &str, prefix: &str) -> (r: Selection)
    ensures
        spec_selection(cands@, to, no_file@, prefix@) == (
            accepted_views(r.accepted@),
            skipped_views(r.skipped@),
            r.missing,
        ),
{
    let mut accepted: Vec<(String, Status)> = Vec::new();
    let mut skipped: Vec<(String, String)> = Vec::new();
    let mut missing = false;
    for i in 0..cands.len()
        invariant
            spec_selection(cands@.take(i as int), to, no_file@, prefix@) == (
                accepted_views(accepted@),
                skipped_views(skipped@),
                missing,
            ),
    {
        proof {
            assert(cands@.take(i + 1).drop_last() =~= cands@.take(i as int));
        }
        let c = &cands[i];
        if missing {
        } else if !c.present {
            missing = true;
        } else if !c.has_file {
            let ghost before = skipped_views(skipped@);
            skipped.push((c.id.clone(), owned(no_file)));
            assert(skipped_views(skipped@) =~= before.push((c.id@, no_file@)));
        } else {
            match transition(c.status, to) {
                Ok(s) => {
                    let ghost before = accepted_views(accepted@);
                    accepted.push((c.id.clone(), s));
                    assert(accepted_views(accepted@) =~= before.push((c.id@, to)));
                },
                Err(e) => {
                    let mut m = owned(prefix);
                    let et = e.to_string();
                    push_str(&mut m, et.as_str());
                    let ghost before = skipped_views(skipped@);
                    skipped.push((c.id.clone(), m));
                    assert(skipped_views(skipped@) =~= before.push(
                        (c.id@, prefix@ + spec_error_text(CoreError::InvalidTransition { from: c.status, to })),
                    ));
                },
            }
        }
    }
    assert(cands@.take(cands.len() as int) =~= cands@);
    Selection { accepted, skipped, missing }
}

/// A merge set up in the merge panel.
#[derive(Debug, Clone)]
pub struct MergeJob {
    pub ids: Vec<String>,
    pub filename: String,
    pub container: String,
    pub encoder_mode: String,
    pub normalize_audio: bool,
}

/// The merge job of a batch: fewer than two items named (nothing is taken
/// then), an item the list lacks, or fewer than two items that can merge
/// are errors; the name,
/// container and encoder default to 合并_<date>, mp4 and auto, the audio
/// normalization to the setting.
pub fn merge_job(
    cands: &Vec<Candidate>,
    filename: Option<String>,
    container: Option<String>,
    encoder: Option<String>,
    normalize: Option<bool>,
    normalize_setting: bool,
) -> (r: (Selection, Result<MergeJob, String>))
    ensures
        cands@.len() >= 2 ==> spec_selection(
            cands@,
            Status::Merging,
            "合并被跳过：无本地输入文件"@,
            "合并被跳过："@,
        ) == (accepted_views(r.0.accepted@), skipped_views(r.0.skipped@), r.0.missing),
        cands@.len() < 2 ==> r.0.accepted@.len() == 0 && r.0.skipped@.len() == 0 && !r.0.missing,
        cands@.len() < 2 ==> (r.1 matches Err(m) && m@ == "合并至少需要 2 个条目"@),
        cands@.len() >= 2 && r.0.missing ==> (r.1 matches Err(m) && m@ == "条目不存在"@),
        cands@.len() >= 2 && !r.0.missing && r.0.accepted@.len() < 2 ==> (r.1 matches Err(m) && m@
            == "可合并条目不足 2 个"@),
        r.1 is Ok <==> (cands@.len() >= 2 && !r.0.missing && r.0.accepted@.len() >= 2),
        r.1 matches Ok(job) ==> {
            &&& job.ids@.map_values(|s: String| s@) == accepted_views(r.0.accepted@).map_values(
                |p: (Seq<char>, Status)| p.0,
            )
            &&& match filename {
                Some(f) => job.filename@ == f@,
                None => exists|secs: u64, y: int, m: int, d: int|
                    date_of(secs, y, m, d) && job.filename@ == "合并_"@ + spec_ymd_compact(y, m, d),
            }
            &&& job.container@ == match container {
                Some(c) => c@,
                None => "mp4"@,
            }
            &&& job.encoder_mode@ == match encoder {
                Some(e) => e@,
                None => "auto"@,
            }
            &&& job.normalize_audio == match normalize {
                Some(n) => n,
                None => normalize_setting,
            }
        },
{
    if cands.len() < 2 {
        let empty = Selection { accepted: Vec::new(), skipped: Vec::new(), missing: false };
        return (empty, Err(owned("合并至少需要 2 个条目")));
    }
    let sel = select_for(cands, Status::Merging, "合并被跳过：无本地输入文件", "合并被跳过：");
    if sel.missing {
        return (sel, Err(owned("条目不存在")));
    }
    if sel.accepted.len() < 2 {
        return (sel, Err(owned("可合并条目不足 2 个")));
    }
    let mut ids: Vec<String> = Vec::new();
    for i in 0..sel.accepted.len()
        invariant
            ids@.map_values(|s: String| s@) == accepted_views(sel.accepted@.take(i as int)).map_values(
                |p: (Seq<char>, Status)| p.0,
            ),
    {
        let ghost before = ids@.map_values(|s: String| s@);
        ids.push(sel.accepted[i].0.clone());
        assert(ids@.map_values(|s: String| s@) =~= before.push(sel.accepted@[i as int].0@));
        assert(accepted_views(sel.accepted@.take(i + 1)).map_values(|p: (Seq<char>, Status)| p.0)
            =~= accepted_views(sel.accepted@.take(i as int)).map_values(|p: (Seq<char>, Status)| p.0).push(
            sel.accepted@[i as int].0@,
        ));
    }
    assert(sel.accepted@.take(sel.accepted.len() as int) =~= sel.accepted@);
    let job = MergeJob {
        ids,
        filename: match filename {
            Some(f) => f,
            None => default_merge_name(),
        },
        container: match container {
            Some(c) => c,
            None => owned("mp4"),
        },
        encoder_mode: match encoder {
            Some(e) => e,
            None => owned("auto"),
        },
        normalize_audio: match normalize {
            Some(n) => n,
            None => normalize_setting,
        },
    };
    (sel, Ok(job))
}

/// The transcode batch: no item named, or an item the list lacks, is an
/// error, as is a batch where nothing can be transcoded.
pub fn transcode_batch(cands: &Vec<Candidate>) -> (r: (Selection, Result<(), String>))
    ensures
        spec_selection(
            cands@,
            Status::Transcoding,
            "转码被跳过：无本地输入文件（先下载或添加本地文件）"@,
            "转码被跳过："@,
        ) == (accepted_views(r.0.accepted@), skipped_views(r.0.skipped@), r.0.missing),
        cands@.len() == 0 ==> (r.1 matches Err(m) && m@ == "未选择条目"@),
        cands@.len() > 0 && r.0.missing ==> (r.1 matches Err(m) && m@ == "条目不存在"@),
        cands@.len() > 0 && !r.0.missing && r.0.accepted@.len() == 0 ==> (r.1 matches Err(m) && m@
            == "没有可转码的条目（需要已解析的本地文件）"@),
        r.1 is Ok <==> (cands@.len() > 0 && !r.0.missing && r.0.accepted@.len() > 0),
{
    let sel = select_for(
        cands,
        Status::Transcoding,
        "转码被跳过：无本地输入文件（先下载或添加本地文件）",
        "转码被跳过：",
    );
    if cands.len() == 0 {
        return (sel, Err(owned("未选择条目")));
    }
    if sel.missing {
        return (sel, Err(owned("条目不存在")));
    }
    if sel.accepted.len() == 0 {
        return (sel, Err(owned("没有可转码的条目（需要已解析的本地文件）")));
    }
    (sel, Ok(()))
}


/// An entry of the accepted list comes from candidate `c`, which the batch
/// could take: it is in the list, has a file, and may move to `to`.
pub open spec fn accepted_from(entry: (Seq<char>, Status), c: Candidate, to: Status) -> bool {
    entry.0 == c.id@ && entry.1 == to && c.present && c.has_file && allowed_transition(c.status, to)
}

proof fn lemma_accepted_source(
    cands: Seq<Candidate>,
    to: Status,
    no_file: Seq<char>,
    prefix: Seq<char>,
    k: int,
) -> (i: int)
    requires
        0 <= k < spec_selection(cands, to, no_file, prefix).0.len(),
    ensures
        0 <= i < cands.len(),
        accepted_from(spec_selection(cands, to, no_file, prefix).0[k], cands[i], to),
    decreases cands.len(),
{
    let p = cands.drop_last();
    let acc = spec_selection(p, to, no_file, prefix).0;
    let c = cands.last();
    if k < acc.len() {
        let i = lemma_accepted_source(p, to, no_file, prefix, k);
        assert(cands[i] == p[i]);
        i
    } else {
        assert(cands[cands.len() - 1] == c);
        (cands.len() - 1) as int
    }
}

proof fn lemma_missing(cands: Seq<Candidate>, to: Status, no_file: Seq<char>, prefix: Seq<char>)
    ensures
        spec_selection(cands, to, no_file, prefix).2 <==> exists|i: int|
            0 <= i < cands.len() && !(#[trigger] cands[i]).present,
    decreases cands.len(),
{
    if cands.len() > 0 {
        let p = cands.drop_last();
        lemma_missing(p, to, no_file, prefix);
        assert forall|i: int| 0 <= i < p.len() implies cands[i] == p[i] by {}
        assert(cands[cands.len() - 1] == cands.last());
        if exists|i: int| 0 <= i < cands.len() && !cands[i].present {
            let i = choose|i: int| 0 <= i < cands.len() && !cands[i].present;
            if i < p.len() {
                assert(!p[i].present);
            }
        }
        if spec_selection(p, to, no_file, prefix).2 {
            let i = choose|i: int| 0 <= i < p.len() && !p[i].present;
            assert(!cands[i].present);
        }
    }
}

/// Some candidate is the source of an accepted entry.
pub open spec fn has_source(cands: Seq<Candidate>, to: Status, entry: (Seq<char>, Status)) -> bool {
    exists|i: int| 0 <= i < cands.len() && #[trigger] accepted_from(entry, cands[i], to)
}

/// Every item a batch action takes is in the list, has a local file and may
/// move to the action's status; and the batch stops at the first item the
/// list lacks.
pub proof fn law_selection_sound(cands: Seq<Candidate>, to: Status, no_file: Seq<char>, prefix: Seq<char>)
    ensures
        forall|k: int|
            0 <= k < spec_selection(cands, to, no_file, prefix).0.len() ==> #[trigger] has_source(
                cands,
                to,
                spec_selection(cands, to, no_file, prefix).0[k],
            ),
        spec_selection(cands, to, no_file, prefix).2 <==> exists|i: int|
            0 <= i < cands.len() && !(#[trigger] cands[i]).present,
{
    assert forall|k: int| 0 <= k < spec_selection(cands, to, no_file, prefix).0.len() implies #[trigger] has_source(
        cands,
        to,
        spec_selection(cands, to, no_file, prefix).0[k],
    ) by {
        let i = lemma_accepted_source(cands, to, no_file, prefix, k);
        assert(accepted_from(spec_selection(cands, to, no_file, prefix).0[k], cands[i], to));
    }
    lemma_missing(cands, to, no_file, prefix);
}


// ---------------------------------------------------------------------------
// Adding, retrying, logging in

/// The URLs to add: each pasted text cleaned, empty ones dropped.
pub open spec fn spec_urls_to_add(raws: Seq<Seq<char>>) -> Seq<Seq<char>>
    decreases raws.len(),
{
    if raws.len() == 0 {
        Seq::empty()
    } else {
        let rest = spec_urls_to_add(raws.drop_last());
        let u = spec_clean_url(raws.last());
        if u.len() == 0 {
            rest
        } else {
            rest.push(u)
        }
    }
}

/// Cleans pasted URLs and drops the empty ones.
pub fn urls_to_add(raws: &Vec<String>) -> (r: Vec<String>)
    ensures
        crate::text::views(r@) == spec_urls_to_add(crate::text::views(raws@)),
{
    let ghost all = crate::text::views(raws@);
    let mut out: Vec<String> = Vec::new();
    for i in 0..raws.len()
        invariant
            all == crate::text::views(raws@),
            crate::text::views(out@) == spec_urls_to_add(all.take(i as int)),
    {
        proof {
            assert(all.take(i + 1).drop_last() =~= all.take(i as int));
        }
        let u = clean_url(raws[i].as_str());
        if u.as_str().unicode_len() > 0 {
            let ghost before = crate::text::views(out@);
            out.push(u);
            assert(crate::text::views(out@) =~= before.push(spec_clean_url(all[i as int])));
        }
    }
    assert(all.take(raws.len() as int) =~= all);
    out
}

/// Retrying is for failed, canceled and done items and those needing a
/// login; the item goes back to Probing.
pub fn retry_start(status: Status) -> (r: Result<Status, String>)
    ensures
        (crate::model::spec_is_terminal(status) || status == Status::NeedLogin) ==> r == Ok::<Status, String>(
            Status::Probing,
        ),
        !(crate::model::spec_is_terminal(status) || status == Status::NeedLogin) ==> (r matches Err(m) && m@
            == "仅失败/已取消/需要登录可重试"@),
{
    if !status.is_terminal() && status != Status::NeedLogin {
        return Err(owned("仅失败/已取消/需要登录可重试"));
    }
    match transition(status, Status::Probing) {
        Ok(s) => Ok(s),
        Err(e) => Err(e.to_string()),
    }
}

/// Where to log in again for an item: its host (or its URL's), and that
/// site's login page.
pub fn relogin_target(host: &Option<String>, url: &Option<String>) -> (r: Result<(String, String), String>)
    ensures
        match r {
            Ok((h, page)) => {
                &&& h@ == match host {
                    Some(x) => x@,
                    None => crate::config::spec_host_of(url->0@),
                }
                &&& (host is Some || url is Some)
                &&& crate::login::spec_login_url(crate::text::unicode_lowercase(h@)) == Some(page@)
            },
            Err(m) => (host is None && url is None && m@ == "无法确定登录站点"@) || ((host is Some || url is Some)
                && m@ == "该站点不支持内置登录"@),
        },
{
    let h = match host {
        Some(x) => x.clone(),
        None => match url {
            Some(u) => match crate::config::host_of(u.as_str()) {
                Some(x) => x,
                None => return Err(owned("无法确定登录站点")),
            },
            None => return Err(owned("无法确定登录站点")),
        },
    };
    match crate::login::login_url_for_host(h.as_str()) {
        Some(page) => Ok((h, page)),
        None => Err(owned("该站点不支持内置登录")),
    }
}

} // verus!
