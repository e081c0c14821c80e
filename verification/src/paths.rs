//! Directory layout next to the executable: `config/`, `temp/`, `tools/`,
//! `config/cookies/`, `config/cache/`.
use vstd::prelude::*;

use crate::text::{chars_of, owned, push_chars, push_str};

verus! {

pub const DIR_CONFIG: &'static str = "config";
pub const DIR_TEMP: &'static str = "temp";
pub const DIR_TOOLS: &'static str = "tools";
pub const DIR_COOKIES: &'static str = "cookies";
pub const DIR_CACHE: &'static str = "cache";

/// What `Path::join` gives for a base path and a path to append (on the
/// platform the library runs on).
pub uninterp spec fn join(base: Seq<char>, p: Seq<char>) -> Seq<char>;

/// `Path::new(base).join(p)`. Trusted: the result is named by `join` of
/// the two texts (no bytes are lost: both are UTF-8).
#[verifier::external_body]
pub(crate) fn join_path(base: &str, p: &str) -> (r: String)
    ensures
        r@ == join(base@, p@),
{
    std::path::Path::new(base).join(p).to_string_lossy().into_owned()
}

/// The directories of the portable layout, rooted at one directory.
#[derive(Debug, Clone)]
pub struct Paths {
    root: String,
}

impl Paths {
    pub closed spec fn spec_root(self) -> Seq<char> {
        self.root@
    }

    pub open spec fn spec_config_dir(self) -> Seq<char> {
        join(self.spec_root(), "config"@)
    }

    pub open spec fn spec_temp_dir(self) -> Seq<char> {
        join(self.spec_root(), "temp"@)
    }

    /// Uses `root` as the root directory.
    pub fn from_root(root: &str) -> (r: Self)
        ensures
            r.spec_root() == root@,
    {
        Paths { root: owned(root) }
    }

    pub fn root(&self) -> (r: &str)
        ensures
            r@ == self.spec_root(),
    {
        self.root.as_str()
    }

    pub fn config_dir(&self) -> (r: String)
        ensures
            r@ == self.spec_config_dir(),
    {
        join_path(self.root.as_str(), DIR_CONFIG)
    }

    pub fn temp_dir(&self) -> (r: String)
        ensures
            r@ == self.spec_temp_dir(),
    {
        join_path(self.root.as_str(), DIR_TEMP)
    }

    pub fn tools_dir(&self) -> (r: String)
        ensures
            r@ == join(self.spec_root(), "tools"@),
    {
        join_path(self.root.as_str(), DIR_TOOLS)
    }

    pub fn cookies_dir(&self) -> (r: String)
        ensures
            r@ == join(self.spec_config_dir(), "cookies"@),
    {
        join_path(self.config_dir().as_str(), DIR_COOKIES)
    }

    pub fn cache_dir(&self) -> (r: String)
        ensures
            r@ == join(self.spec_config_dir(), "cache"@),
    {
        join_path(self.config_dir().as_str(), DIR_CACHE)
    }

    pub fn config_file(&self) -> (r: String)
        ensures
            r@ == join(self.spec_config_dir(), "config.json"@),
    {
        join_path(self.config_dir().as_str(), "config.json")
    }

    pub fn history_file(&self) -> (r: String)
        ensures
            r@ == join(self.spec_config_dir(), "history.json"@),
    {
        join_path(self.config_dir().as_str(), "history.json")
    }

    /// Private temporary directory of a task: `temp/<task_id>`.
    pub fn task_temp_dir(&self, task_id: &str) -> (r: String)
        ensures
            r@ == join(self.spec_temp_dir(), task_id@),
    {
        join_path(self.temp_dir().as_str(), task_id)
    }
}

/// What `Path::with_extension` gives for a path and an extension.
pub uninterp spec fn path_with_extension(p: Seq<char>, ext: Seq<char>) -> Seq<char>;

/// `Path::new(p).with_extension(ext)`. Trusted: the result is named by
/// `path_with_extension` of the two texts (no bytes are lost: both are UTF-8).
/// std panics when the extension holds a path separator, so it may not.
#[verifier::external_body]
pub(crate) fn with_extension(p: &str, ext: &str) -> (r: String)
    requires
        !ext@.contains('/'),
        !ext@.contains('\\'),
    ensures
        r@ == path_with_extension(p@, ext@),
{
    std::path::Path::new(p).with_extension(ext).to_string_lossy().into_owned()
}

} // verus!
