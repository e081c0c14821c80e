//! External tools (yt-dlp, ffmpeg, ffprobe, deno) and where to find them:
//! a configured path wins, otherwise the directories of the search path.
use vstd::prelude::*;

use crate::config::DependenciesConfig;
use crate::error::{CoreError, IoErrorKind};
use crate::paths::{join, join_path};
use crate::text::{chars_eq, chars_of, is_char, lemma_take_until, first_index, owned, push_str,
    slice_chars, string_of, take_until, trim, trim_chars};

verus! {

/// The managed tools.
#[derive(Debug, Clone, Copy, PartialEq, Eq, Structural)]
pub enum Tool {
    YtDlp,
    Ffmpeg,
    Ffprobe,
    Deno,
}

pub open spec fn spec_tool_name(t: Tool) -> Seq<char> {
    match t {
        Tool::YtDlp => "yt-dlp"@,
        Tool::Ffmpeg => "ffmpeg"@,
        Tool::Ffprobe => "ffprobe"@,
        Tool::Deno => "deno"@,
    }
}

/// File name of a tool's executable: its name, with `.exe` on Windows.
pub open spec fn spec_exe_name(t: Tool, windows: bool) -> Seq<char> {
    if windows {
        spec_tool_name(t) + ".exe"@
    } else {
        spec_tool_name(t)
    }
}

impl Tool {
    pub fn name(self) -> (r: &'static str)
        ensures
            r@ == spec_tool_name(self),
    {
        match self {
            Tool::YtDlp => "yt-dlp",
            Tool::Ffmpeg => "ffmpeg",
            Tool::Ffprobe => "ffprobe",
            Tool::Deno => "deno",
        }
    }

    /// File name of the executable: `<name>.exe` on Windows, the bare name
    /// elsewhere.
    pub fn exe_name(self, windows: bool) -> (r: &'static str)
        ensures
            r@ == spec_exe_name(self, windows),
    {
        if windows {
            let r = match self {
                Tool::YtDlp => "yt-dlp.exe",
                Tool::Ffmpeg => "ffmpeg.exe",
                Tool::Ffprobe => "ffprobe.exe",
                Tool::Deno => "deno.exe",
            };
            proof {
                reveal_strlit("yt-dlp.exe");
                reveal_strlit("ffmpeg.exe");
                reveal_strlit("ffprobe.exe");
                reveal_strlit("deno.exe");
                reveal_strlit("yt-dlp");
                reveal_strlit("ffmpeg");
                reveal_strlit("ffprobe");
                reveal_strlit("deno");
                reveal_strlit(".exe");
                assert(r@ =~= spec_exe_name(self, windows));
            }
            r
        } else {
            self.name()
        }
    }
}

/// Facts about the file system that tool resolution needs: the directories
/// of the search path, in order, and which candidate paths are files.
#[derive(Debug, Clone)]
pub struct FileFacts {
    pub search_dirs: Vec<String>,
    pub files: Vec<String>,
}

impl FileFacts {
    pub open spec fn dirs(self) -> Seq<Seq<char>> {
        self.search_dirs@.map_values(|s: String| s@)
    }

    pub open spec fn is_file(self, p: Seq<char>) -> bool {
        exists|i: int| 0 <= i < self.files@.len() && self.files@[i]@ == p
    }

    /// An empty search path and no files.
    pub fn empty() -> (r: Self)
        ensures
            r.search_dirs@.len() == 0,
            r.files@.len() == 0,
    {
        FileFacts { search_dirs: Vec::new(), files: Vec::new() }
    }

    /// Whether `p` is one of the known files.
    pub fn has_file(&self, p: &str) -> (r: bool)
        ensures
            r == self.is_file(p@),
    {
        let key = chars_of(p);
        for i in 0..self.files.len()
            invariant
                key@ == p@,
                forall|k: int| 0 <= k < i ==> self.files@[k]@ != p@,
        {
            let f = chars_of(self.files[i].as_str());
            assert(self.files@[i as int]@ == f@);
            if chars_eq(&f, &key) {
                return true;
            }
        }
        false
    }
}

/// Tool locations: configured paths win, otherwise the search path. It
/// knows whether executables carry the Windows `.exe` suffix.
#[derive(Debug, Clone)]
pub struct ToolResolver {
    yt_dlp: Option<String>,
    ffmpeg: Option<String>,
    ffprobe: Option<String>,
    deno: Option<String>,
    windows: bool,
}

pub open spec fn opt_view(o: Option<String>) -> Option<Seq<char>> {
    match o {
        Some(s) => Some(s@),
        None => None,
    }
}

/// First directory of `dirs` (from index `i` on) holding the tool.
pub open spec fn first_hit(dirs: Seq<Seq<char>>, exe: Seq<char>, facts: FileFacts, i: int) -> bool {
    0 <= i < dirs.len() && facts.is_file(join(dirs[i], exe)) && forall|j: int|
        0 <= j < i ==> !facts.is_file(#[trigger] join(dirs[j], exe))
}

/// What resolving a tool gives: the configured path if it is a file (an error
/// if it is not); without one, the executable `exe` in the first search
/// directory that has it.
pub open spec fn spec_resolve(configured: Option<Seq<char>>, exe: Seq<char>, facts: FileFacts) -> Option<Seq<char>> {
    match configured {
        Some(p) => if facts.is_file(p) {
            Some(p)
        } else {
            None
        },
        None => if exists|i: int| first_hit(facts.dirs(), exe, facts, i) {
            let i = choose|i: int| first_hit(facts.dirs(), exe, facts, i);
            Some(join(facts.dirs()[i], exe))
        } else {
            None
        },
    }
}

/// The message of a failed resolution: the configured path that is not a
/// file, or the tool that the search path does not have.
pub open spec fn spec_resolve_error(configured: Option<Seq<char>>, t: Tool) -> Seq<char> {
    match configured {
        Some(p) => spec_tool_name(t) + " 指定路径不存在："@ + p,
        None => "未找到 "@ + spec_tool_name(t) + "（请设置路径或加入系统 PATH）"@,
    }
}

impl ToolResolver {
    /// The configured path of a tool.
    pub closed spec fn configured(self, t: Tool) -> Option<Seq<char>> {
        match t {
            Tool::YtDlp => opt_view(self.yt_dlp),
            Tool::Ffmpeg => opt_view(self.ffmpeg),
            Tool::Ffprobe => opt_view(self.ffprobe),
            Tool::Deno => opt_view(self.deno),
        }
    }

    /// Whether executables carry the `.exe` suffix.
    pub closed spec fn on_windows(self) -> bool {
        self.windows
    }

    /// The executable file name of `t` for this resolver's platform.
    pub open spec fn exe(self, t: Tool) -> Seq<char> {
        spec_exe_name(t, self.on_windows())
    }

    /// No tool configured.
    pub fn new(windows: bool) -> (r: Self)
        ensures
            forall|t: Tool| r.configured(t) is None,
            r.on_windows() == windows,
    {
        ToolResolver { yt_dlp: None, ffmpeg: None, ffprobe: None, deno: None, windows }
    }

    /// Paths from the dependencies settings; an empty setting means the search path.
    pub fn from_config(cfg: &DependenciesConfig, windows: bool) -> (r: Self)
        ensures
            r.configured(Tool::YtDlp) == opt_view(cfg.yt_dlp_path),
            r.configured(Tool::Ffmpeg) == opt_view(cfg.ffmpeg_path),
            r.configured(Tool::Ffprobe) == opt_view(cfg.ffprobe_path),
            r.configured(Tool::Deno) == opt_view(cfg.deno_path),
            r.on_windows() == windows,
    {
        ToolResolver {
            yt_dlp: copy_opt(&cfg.yt_dlp_path),
            ffmpeg: copy_opt(&cfg.ffmpeg_path),
            ffprobe: copy_opt(&cfg.ffprobe_path),
            deno: copy_opt(&cfg.deno_path),
            windows,
        }
    }

    /// Fills every unconfigured tool with `<tools_dir>/<exe>`.
    pub fn with_tools_dir(self, tools_dir: &str) -> (r: Self)
        ensures
            r.on_windows() == self.on_windows(),
            forall|t: Tool|
                #[trigger] r.configured(t) == match self.configured(t) {
                    Some(p) => Some(p),
                    None => Some(join(tools_dir@, self.exe(t))),
                },
    {
        let ToolResolver { yt_dlp, ffmpeg, ffprobe, deno, windows } = self;
        let r = ToolResolver {
            yt_dlp: or_join(yt_dlp, tools_dir, Tool::YtDlp, windows),
            ffmpeg: or_join(ffmpeg, tools_dir, Tool::Ffmpeg, windows),
            ffprobe: or_join(ffprobe, tools_dir, Tool::Ffprobe, windows),
            deno: or_join(deno, tools_dir, Tool::Deno, windows),
            windows,
        };
        assert forall|t: Tool|
            #[trigger] r.configured(t) == match self.configured(t) {
                Some(p) => Some(p),
                None => Some(join(tools_dir@, self.exe(t))),
            } by {
            match t {
                Tool::YtDlp => {},
                Tool::Ffmpeg => {},
                Tool::Ffprobe => {},
                Tool::Deno => {},
            }
        }
        r
    }

    fn configured_path(&self, tool: Tool) -> (r: Option<String>)
        ensures
            opt_view(r) == self.configured(tool),
    {
        match tool {
            Tool::YtDlp => copy_opt(&self.yt_dlp),
            Tool::Ffmpeg => copy_opt(&self.ffmpeg),
            Tool::Ffprobe => copy_opt(&self.ffprobe),
            Tool::Deno => copy_opt(&self.deno),
        }
    }

    /// The paths whose existence decides where `tool` is: the configured path,
    /// or the tool's executable in each search directory.
    pub fn candidates(&self, tool: Tool, search_dirs: &Vec<String>) -> (r: Vec<String>)
        ensures
            match self.configured(tool) {
                Some(p) => r@.len() == 1 && r@[0]@ == p,
                None => r@.len() == search_dirs@.len() && forall|i: int|
                    0 <= i < r@.len() ==> #[trigger] r@[i]@ == join(
                        search_dirs@[i]@,
                        self.exe(tool),
                    ),
            },
    {
        let mut r: Vec<String> = Vec::new();
        match self.configured_path(tool) {
            Some(p) => {
                r.push(p);
            },
            None => {
                for i in 0..search_dirs.len()
                    invariant
                        self.configured(tool) is None,
                        r@.len() == i,
                        forall|k: int|
                            0 <= k < i ==> #[trigger] r@[k]@ == join(
                                search_dirs@[k]@,
                                self.exe(tool),
                            ),
                {
                    r.push(join_path(search_dirs[i].as_str(), tool.exe_name(self.windows)));
                }
            },
        }
        r
    }

    /// Where `tool` is: `Ok(path)` as `spec_resolve` says, else an error
    /// naming the tool (and the configured path, if one was set).
    pub fn resolve(&self, tool: Tool, facts: &FileFacts) -> (r: Result<String, CoreError>)
        ensures
            match r {
                Ok(p) => spec_resolve(self.configured(tool), self.exe(tool), *facts) == Some(p@),
                Err(e) => spec_resolve(self.configured(tool), self.exe(tool), *facts) is None && (e matches CoreError::Io(IoErrorKind::NotFound, m)
                    && m@ == spec_resolve_error(self.configured(tool), tool)),
            },
    {
        match self.configured_path(tool) {
            Some(p) => {
                if facts.has_file(p.as_str()) {
                    Ok(p)
                } else {
                    let mut m = owned(tool.name());
                    push_str(&mut m, " 指定路径不存在：");
                    push_str(&mut m, p.as_str());
                    Err(CoreError::Io(IoErrorKind::NotFound, m))
                }
            },
            None => {
                let exe = tool.exe_name(self.windows);
                for i in 0..facts.search_dirs.len()
                    invariant
                        self.configured(tool) is None,
                        exe@ == self.exe(tool),
                        forall|k: int|
                            0 <= k < i ==> !facts.is_file(
                                #[trigger] join(facts.dirs()[k], self.exe(tool)),
                            ),
                {
                    let cand = join_path(facts.search_dirs[i].as_str(), exe);
                    assert(facts.dirs()[i as int] == facts.search_dirs@[i as int]@);
                    if facts.has_file(cand.as_str()) {
                        proof {
                            assert(first_hit(facts.dirs(), self.exe(tool), *facts, i as int));
                            let j = choose|j: int|
                                first_hit(facts.dirs(), self.exe(tool), *facts, j);
                            if j < i {
                            } else if i < j {
                                assert(!facts.is_file(join(facts.dirs()[i as int], self.exe(tool))));
                            }
                        }
                        return Ok(cand);
                    }
                }
                let mut m = owned("未找到 ");
                push_str(&mut m, tool.name());
                push_str(&mut m, "（请设置路径或加入系统 PATH）");
                Err(CoreError::Io(IoErrorKind::NotFound, m))
            },
        }
    }

    /// Whether yt-dlp, ffmpeg and ffprobe all resolve.
    pub fn all_available(&self, facts: &FileFacts) -> (r: bool)
        ensures
            r == (spec_resolve(self.configured(Tool::YtDlp), self.exe(Tool::YtDlp), *facts) is Some
                && spec_resolve(self.configured(Tool::Ffmpeg), self.exe(Tool::Ffmpeg), *facts) is Some
                && spec_resolve(self.configured(Tool::Ffprobe), self.exe(Tool::Ffprobe), *facts) is Some),
    {
        self.resolve(Tool::YtDlp, facts).is_ok() && self.resolve(Tool::Ffmpeg, facts).is_ok()
            && self.resolve(Tool::Ffprobe, facts).is_ok()
    }
}

fn copy_opt(o: &Option<String>) -> (r: Option<String>)
    ensures
        opt_view(r) == opt_view(*o),
{
    match o {
        Some(s) => Some(owned(s.as_str())),
        None => None,
    }
}

fn or_join(o: Option<String>, dir: &str, t: Tool, windows: bool) -> (r: Option<String>)
    ensures
        opt_view(r) == match opt_view(o) {
            Some(p) => Some(p),
            None => Some(join(dir@, spec_exe_name(t, windows))),
        },
{
    match o {
        Some(s) => Some(s),
        None => Some(join_path(dir, t.exe_name(windows))),
    }
}

/// The flag that prints a tool's version.
pub fn version_arg(tool: Tool) -> (r: &'static str)
    ensures
        r@ == (if tool == Tool::Ffmpeg || tool == Tool::Ffprobe {
            "-version"@
        } else {
            "--version"@
        }),
{
    match tool {
        Tool::Ffmpeg | Tool::Ffprobe => "-version",
        _ => "--version",
    }
}

/// The first line of a tool's version output, trimmed; `None` when the
/// output is empty or its first line is blank: a version is never empty.
pub open spec fn spec_first_line(text: Seq<char>) -> Option<Seq<char>> {
    let line = trim(take_until(text, is_char('\n')));
    if text.len() == 0 || line.len() == 0 {
        None
    } else {
        Some(line)
    }
}

/// Version string from the output of `<tool> --version` (or `-version`).
pub fn tool_version(stdout: &str) -> (r: Option<String>)
    ensures
        match r {
            Some(v) => spec_first_line(stdout@) == Some(v@),
            None => spec_first_line(stdout@) is None,
        },
{
    let v = chars_of(stdout);
    if v.len() == 0 {
        return None;
    }
    let mut i: usize = 0;
    while i < v.len() && v[i] != '\n'
        invariant
            i <= v.len(),
            forall|k: int| 0 <= k < i ==> !is_char('\n')(#[trigger] v@[k]),
        decreases v.len() - i,
    {
        i = i + 1;
    }
    proof {
        assert(first_index(v@, is_char('\n'), i as int));
        lemma_take_until(v@, is_char('\n'), i as int);
    }
    let line = slice_chars(&v, 0, i);
    assert(line@ == v@.take(i as int));
    let t = trim_chars(&line);
    if t.len() == 0 {
        return None;
    }
    Some(string_of(&t))
}

/// Checks that a configured tool path is a file (`is_file` says whether it is).
pub fn validate_tool_path(path: &str, tool: Tool, is_file: bool) -> (r: Result<(), CoreError>)
    ensures
        r is Ok <==> is_file,
        !is_file ==> (r matches Err(CoreError::Io(IoErrorKind::NotFound, m)) && m@ == path@ + " 不存在"@),
{
    if !is_file {
        let mut m = owned(path);
        push_str(&mut m, " 不存在");
        return Err(CoreError::Io(IoErrorKind::NotFound, m));
    }
    Ok(())
}

} // verus!
