//! User settings (download, transcode, dependencies, network) and the
//! per-site proxy decision.
use vstd::prelude::*;

use crate::error::CoreError;
use crate::text::{
    dec, push_dec, push_str, chars_eq, chars_of, contains, ends_with, ends_with_exec, first_index, is_char, lemma_take_until,
    owned, slice_chars, split_once, split_once_exec, string_of, strip_start, take_until,
    to_lowercase, trim, trim_chars, trim_start_matches_char, unicode_lowercase,
};

verus! {

/// Download settings.
#[derive(Debug, Clone)]
pub struct DownloadConfig {
    /// Quality limit (short side); larger downloads are scaled down.
    pub max_h: u32,
    /// Hard upper bound of the download height.
    pub max_dl_h: u32,
    /// Concurrent fragments.
    pub fragments: u32,
    pub retries: u32,
    pub audio_only: bool,
    pub playlist: bool,
    pub embed_cover: bool,
    /// File name template: 纯标题 / 标题+ID / UP主-标题 / 日期-标题.
    pub filename_template: String,
}

impl Default for DownloadConfig {
    fn default() -> (r: Self)
        ensures
            r.max_h == 1080,
            r.max_dl_h == 2160,
            r.fragments == 4,
            r.retries == 3,
            !r.audio_only,
            !r.playlist,
            r.embed_cover,
            r.filename_template@ == "纯标题"@,
    {
        DownloadConfig {
            max_h: 1080,
            max_dl_h: 2160,
            fragments: 4,
            retries: 3,
            audio_only: false,
            playlist: false,
            embed_cover: true,
            filename_template: owned("纯标题"),
        }
    }
}

/// Transcode settings (the x265 CRF is fixed at 23 and not configurable).
#[derive(Debug, Clone)]
pub struct TranscodeConfig {
    pub max_w: u32,
    pub max_h: u32,
    /// Bit-rate cap in kbps.
    pub brcap_kbps: Option<u32>,
    /// Fallback bit rate in kbps.
    pub br_default_kbps: u32,
    /// auto | libx265 | nvenc | amf
    pub force_encoder_mode: String,
    /// QSV low_power.
    pub low_power: bool,
    pub keep_cover: bool,
}

impl Default for TranscodeConfig {
    fn default() -> (r: Self)
        ensures
            r.max_w == 1920,
            r.max_h == 1080,
            r.brcap_kbps is None,
            r.br_default_kbps == 8000,
            r.force_encoder_mode@ == "auto"@,
            r.low_power,
            r.keep_cover,
    {
        TranscodeConfig {
            max_w: 1920,
            max_h: 1080,
            brcap_kbps: None,
            br_default_kbps: 8000,
            force_encoder_mode: owned("auto"),
            low_power: true,
            keep_cover: true,
        }
    }
}

/// Tool locations; `None` means "search PATH".
#[derive(Debug, Clone)]
pub struct DependenciesConfig {
    pub yt_dlp_path: Option<String>,
    pub ffmpeg_path: Option<String>,
    pub ffprobe_path: Option<String>,
    pub deno_path: Option<String>,
    /// PO-Token service, on by default.
    pub potoken_enabled: bool,
}

impl Default for DependenciesConfig {
    fn default() -> (r: Self)
        ensures
            r.yt_dlp_path is None,
            r.ffmpeg_path is None,
            r.ffprobe_path is None,
            r.deno_path is None,
            r.potoken_enabled,
    {
        DependenciesConfig {
            yt_dlp_path: None,
            ffmpeg_path: None,
            ffprobe_path: None,
            deno_path: None,
            potoken_enabled: true,
        }
    }
}

/// Site → "use the proxy" flags, each site at most once, in insertion order.
#[derive(Debug)]
pub struct SiteProxy {
    entries: Vec<(String, bool)>,
}

pub open spec fn distinct_sites(s: Seq<(Seq<char>, bool)>) -> bool {
    forall|i: int, j: int| 0 <= i < j < s.len() ==> s[i].0 != s[j].0
}

impl SiteProxy {
    /// The entries as (site, flag) pairs in order.
    pub closed spec fn entries(self) -> Seq<(Seq<char>, bool)> {
        self.entries@.map_values(|e: (String, bool)| (e.0@, e.1))
    }

    /// Sites occur at most once.
    #[verifier::type_invariant]
    spec fn inv(self) -> bool {
        distinct_sites(self.entries())
    }

    /// The flag of each site.
    pub open spec fn as_map(self) -> Map<Seq<char>, bool> {
        Map::new(
            |k: Seq<char>| exists|i: int| 0 <= i < self.entries().len() && self.entries()[i].0 == k,
            |k: Seq<char>|
                self.entries()[choose|i: int| 0 <= i < self.entries().len() && self.entries()[i].0 == k].1,
        )
    }

    pub fn new() -> (r: Self)
        ensures
            r.entries().len() == 0,
    {
        SiteProxy { entries: Vec::new() }
    }

    pub fn is_empty(&self) -> (r: bool)
        ensures
            r == (self.entries().len() == 0),
    {
        self.entries.len() == 0
    }

    pub fn len(&self) -> (r: usize)
        ensures
            r == self.entries().len(),
    {
        self.entries.len()
    }

    /// Position of `site` among the entries.
    fn position(&self, site: &Vec<char>) -> (r: Option<usize>)
        ensures
            r matches Some(i) ==> i < self.entries().len() && self.entries()[i as int].0 == site@,
            r is None ==> forall|i: int|
                0 <= i < self.entries().len() ==> self.entries()[i].0 != site@,
    {
        for i in 0..self.entries.len()
            invariant
                forall|k: int| 0 <= k < i ==> self.entries()[k].0 != site@,
        {
            let k = chars_of(self.entries[i].0.as_str());
            if chars_eq(&k, site) {
                return Some(i);
            }
        }
        None
    }

    /// Sets the flag of `site`; returns the previous flag, if the site was present.
    pub fn insert(&mut self, site: String, enabled: bool) -> (r: Option<bool>)
        ensures
            distinct_sites(final(self).entries()),
            match r {
                Some(prev) => exists|i: int|
                    0 <= i < old(self).entries().len() && old(self).entries()[i] == (site@, prev)
                        && final(self).entries() == old(self).entries().update(i, (site@, enabled)),
                None => (forall|i: int|
                    0 <= i < old(self).entries().len() ==> old(self).entries()[i].0 != site@)
                    && final(self).entries() == old(self).entries().push((site@, enabled)),
            },
    {
        proof {
            use_type_invariant(&*self);
        }
        let key = chars_of(site.as_str());
        let ghost before = self.entries();
        let pos = self.position(&key);
        let mut v: Vec<(String, bool)> = Vec::new();
        std::mem::swap(&mut v, &mut self.entries);
        assert(v@.map_values(|e: (String, bool)| (e.0@, e.1)) == before);
        match pos {
            Some(i) => {
                let prev = v[i].1;
                v.set(i, (site, enabled));
                let ghost after = v@.map_values(|e: (String, bool)| (e.0@, e.1));
                proof {
                    assert(after =~= before.update(i as int, (key@, enabled)));
                    assert forall|a: int, b: int| 0 <= a < b < after.len() implies after[a].0 != after[b].0 by {
                        if a != i && b != i {
                            assert(before[a].0 != before[b].0);
                        }
                    }
                }
                self.entries = v;
                Some(prev)
            },
            None => {
                v.push((site, enabled));
                let ghost after = v@.map_values(|e: (String, bool)| (e.0@, e.1));
                proof {
                    assert(after =~= before.push((key@, enabled)));
                    assert forall|a: int, b: int| 0 <= a < b < after.len() implies after[a].0 != after[b].0 by {
                        if b < before.len() {
                            assert(before[a].0 != before[b].0);
                        }
                    }
                }
                self.entries = v;
                None
            },
        }
    }

    /// The sites and their flags, in order.
    pub fn to_vec(&self) -> (r: Vec<(String, bool)>)
        ensures
            r@.map_values(|p: (String, bool)| (p.0@, p.1)) == self.entries(),
    {
        let mut out: Vec<(String, bool)> = Vec::new();
        for i in 0..self.entries.len()
            invariant
                out@.map_values(|p: (String, bool)| (p.0@, p.1)) == self.entries().take(i as int),
                self.entries().len() == self.entries@.len(),
        {
            let ghost before = out@.map_values(|p: (String, bool)| (p.0@, p.1));
            out.push((self.entries[i].0.clone(), self.entries[i].1));
            assert(out@.map_values(|p: (String, bool)| (p.0@, p.1)) =~= before.push(self.entries()[i as int]));
            assert(self.entries().take(i + 1) =~= self.entries().take(i as int).push(self.entries()[i as int]));
        }
        assert(self.entries().take(self.entries.len() as int) =~= self.entries());
        out
    }

    /// The flag of `site`, if present.
    pub fn get(&self, site: &str) -> (r: Option<bool>)
        ensures
            match r {
                Some(b) => exists|i: int|
                    0 <= i < self.entries().len() && self.entries()[i] == (site@, b),
                None => forall|i: int|
                    0 <= i < self.entries().len() ==> self.entries()[i].0 != site@,
            },
    {
        let key = chars_of(site);
        match self.position(&key) {
            Some(i) => Some(self.entries[i].1),
            None => None,
        }
    }
}

impl Clone for SiteProxy {
    /// A copy with the same entries.
    fn clone(&self) -> (r: Self)
        ensures
            r.entries() == self.entries(),
    {
        proof {
            use_type_invariant(self);
        }
        SiteProxy { entries: self.to_vec() }
    }
}

/// Network settings: proxy address and per-site proxy flags.
#[derive(Debug, Clone)]
pub struct NetworkConfig {
    pub proxy_url: String,
    /// Sites that were configured; listed sites use the proxy only when flagged,
    /// unlisted sites connect directly.
    pub site_proxy: SiteProxy,
}

impl Default for NetworkConfig {
    fn default() -> (r: Self)
        ensures
            r.proxy_url@.len() == 0,
            r.site_proxy.entries().len() == 0,
    {
        NetworkConfig { proxy_url: String::new(), site_proxy: SiteProxy::new() }
    }
}

pub open spec fn is_host_end(c: char) -> bool {
    c == '/' || c == '?' || c == '#'
}

/// The lower-cased host of a URL: after `://` (if any), before the first
/// `/`, `?` or `#`, and before any `:port`.
pub open spec fn spec_host_of(url: Seq<char>) -> Seq<char> {
    let u = trim(url);
    let after = match split_once(u, "://"@) {
        Some((_, rest)) => rest,
        None => u,
    };
    let host = take_until(take_until(after, |c: char| is_host_end(c)), is_char(':'));
    unicode_lowercase(host)
}

/// Whether an already cleaned site name (trimmed, without leading dots,
/// lower-cased) covers a host: equal, or the host is a subdomain.
pub open spec fn spec_site_covers(site: Seq<char>, host: Seq<char>) -> bool {
    site.len() > 0 && (host == site || ends_with(host, seq!['.'] + site))
}

/// Whether a configured site covers a host: the site trimmed, without
/// leading dots and lower-cased covers it.
pub open spec fn spec_site_matches(site: Seq<char>, host: Seq<char>) -> bool {
    spec_site_covers(unicode_lowercase(strip_start(trim(site), is_char('.'))), host)
}

/// Index of the first entry whose site covers `host`.
pub open spec fn first_match(entries: Seq<(Seq<char>, bool)>, host: Seq<char>, i: int) -> bool {
    0 <= i < entries.len() && spec_site_matches(entries[i].0, host) && forall|j: int|
        0 <= j < i ==> !spec_site_matches(#[trigger] entries[j].0, host)
}

/// The proxy a URL should use.
pub open spec fn spec_resolve_proxy(proxy: Seq<char>, entries: Seq<(Seq<char>, bool)>, url: Seq<char>) -> Option<Seq<char>> {
    spec_proxy_for_host(proxy, entries, spec_host_of(url))
}

/// The proxy for a (lower-cased) host: none without a proxy address; the
/// proxy when no site is listed; otherwise the flag of the first listed
/// site that covers the host decides, and an uncovered host is direct.
pub open spec fn spec_proxy_for_host(proxy: Seq<char>, entries: Seq<(Seq<char>, bool)>, host: Seq<char>) -> Option<Seq<char>> {
    if proxy.len() == 0 {
        None
    } else if entries.len() == 0 {
        Some(proxy)
    } else {
        if exists|i: int| first_match(entries, host, i) {
            let i = choose|i: int| first_match(entries, host, i);
            if entries[i].1 {
                Some(proxy)
            } else {
                None
            }
        } else {
            None
        }
    }
}

/// Prefix of `v` before the first character satisfying `f`.
fn take_until_exec(v: &Vec<char>, Ghost(f): Ghost<spec_fn(char) -> bool>, stop: char, stop2: char, stop3: char) -> (r: Vec<char>)
    requires
        forall|c: char| #[trigger] f(c) == (c == stop || c == stop2 || c == stop3),
    ensures
        r@ == take_until(v@, f),
{
    let mut i: usize = 0;
    while i < v.len() && !(v[i] == stop || v[i] == stop2 || v[i] == stop3)
        invariant
            i <= v.len(),
            forall|c: char| #[trigger] f(c) == (c == stop || c == stop2 || c == stop3),
            forall|k: int| 0 <= k < i ==> !f(#[trigger] v@[k]),
        decreases v.len() - i,
    {
        i = i + 1;
    }
    proof {
        assert(first_index(v@, f, i as int));
        lemma_take_until(v@, f, i as int);
    }
    let r = slice_chars(v, 0, i);
    assert(r@ == v@.take(i as int));
    r
}

/// Lower-cased host of `url`.
pub fn host_of(url: &str) -> (r: Option<String>)
    ensures
        r matches Some(h) && h@ == spec_host_of(url@),
{
    let raw = chars_of(url);
    let u = trim_chars(&raw);
    let sep = chars_of("://");
    let after = match split_once_exec(&u, &sep) {
        Some((_, rest)) => rest,
        None => u,
    };
    let h1 = take_until_exec(&after, Ghost(|c: char| is_host_end(c)), '/', '?', '#');
    let h2 = take_until_exec(&h1, Ghost(is_char(':')), ':', ':', ':');
    let hs = string_of(&h2);
    Some(to_lowercase(hs.as_str()))
}

/// Whether `site` covers `host` (exact, or `host` is a subdomain of `site`).
pub fn site_matches(site: &str, host: &str) -> (r: bool)
    ensures
        r == spec_site_matches(site@, host@),
{
    let raw = chars_of(site);
    let t = trim_chars(&raw);
    let t2 = trim_start_matches_char(&t, '.');
    let ts = string_of(&t2);
    let low = to_lowercase(ts.as_str());
    site_covers(low.as_str(), host)
}

/// Whether an already cleaned site name covers `host` (exact, or `host` is
/// a subdomain of it).
pub fn site_covers(site: &str, host: &str) -> (r: bool)
    ensures
        r == spec_site_covers(site@, host@),
{
    let s = chars_of(site);
    if s.len() == 0 {
        return false;
    }
    let h = chars_of(host);
    if chars_eq(&h, &s) {
        return true;
    }
    let mut dotted: Vec<char> = Vec::new();
    dotted.push('.');
    let mut i: usize = 0;
    while i < s.len()
        invariant
            i <= s.len(),
            dotted@ == seq!['.'] + s@.take(i as int),
        decreases s.len() - i,
    {
        dotted.push(s[i]);
        i = i + 1;
        assert(dotted@ =~= seq!['.'] + s@.take(i as int));
    }
    assert(s@.take(s@.len() as int) == s@);
    ends_with_exec(&h, &dotted)
}

impl NetworkConfig {
    /// The proxy for `url`: none without a proxy address; the proxy for every
    /// URL when no site is listed; otherwise the proxy only when the first
    /// listed site covering the URL's host is flagged.
    pub fn resolve_proxy(&self, url: &str) -> (r: Option<String>)
        ensures
            match r {
                Some(p) => spec_resolve_proxy(self.proxy_url@, self.site_proxy.entries(), url@)
                    == Some(p@),
                None => spec_resolve_proxy(self.proxy_url@, self.site_proxy.entries(), url@)
                    is None,
            },
    {
        match host_of(url) {
            Some(h) => self.proxy_for_host(h.as_str()),
            None => None,
        }
    }

    /// The proxy for an already lower-cased host (see `spec_proxy_for_host`).
    pub fn proxy_for_host(&self, host: &str) -> (r: Option<String>)
        ensures
            match r {
                Some(p) => spec_proxy_for_host(self.proxy_url@, self.site_proxy.entries(), host@)
                    == Some(p@),
                None => spec_proxy_for_host(self.proxy_url@, self.site_proxy.entries(), host@)
                    is None,
            },
    {
        if self.proxy_url.as_str().unicode_len() == 0 {
            return None;
        }
        if self.site_proxy.is_empty() {
            return Some(self.proxy_url.clone());
        }
        for i in 0..self.site_proxy.entries.len()
            invariant
                self.site_proxy.entries().len() == self.site_proxy.entries@.len(),
                self.proxy_url@.len() > 0,
                self.site_proxy.entries().len() > 0,
                forall|k: int|
                    0 <= k < i ==> !spec_site_matches(#[trigger] self.site_proxy.entries()[k].0, host@),
        {
            let site = &self.site_proxy.entries[i].0;
            let enabled = self.site_proxy.entries[i].1;
            assert(self.site_proxy.entries()[i as int] == (site@, enabled));
            if site_matches(site.as_str(), host) {
                proof {
                    assert(first_match(self.site_proxy.entries(), host@, i as int));
                    let j = choose|j: int| first_match(self.site_proxy.entries(), host@, j);
                    if j < i {
                        assert(!spec_site_matches(self.site_proxy.entries()[j].0, host@));
                    } else if i < j {
                        assert(!spec_site_matches(self.site_proxy.entries()[i as int].0, host@));
                    }
                }
                if enabled {
                    return Some(self.proxy_url.clone());
                } else {
                    return None;
                }
            }
        }
        assert(!exists|j: int| first_match(self.site_proxy.entries(), host@, j));
        None
    }
}

/// General settings. The gain limit is kept in hundredths of a dB.
#[derive(Debug, Clone)]
pub struct GeneralConfig {
    /// Output directory (the desktop when unset).
    pub default_output_dir: Option<String>,
    /// Naming on collision: `auto_inc` or `skip`.
    pub collision_policy: String,
    /// Audio normalization (download post-processing and transcoding).
    pub normalize_audio: bool,
    /// Largest normalization gain, in hundredths of a dB.
    pub max_gain_cdb: u32,
    /// Concurrent tasks, shared by downloads, transcodes and merges.
    pub concurrency: u32,
    /// Check for updates at start-up.
    pub check_update: bool,
    /// Number of history entries kept.
    pub history_limit: usize,
}

/// Largest allowed history limit.
pub const HISTORY_LIMIT_MAX: usize = 200;

impl Default for GeneralConfig {
    fn default() -> (r: Self)
        ensures
            r.default_output_dir is None,
            r.collision_policy@ == "auto_inc"@,
            r.normalize_audio,
            r.max_gain_cdb == 2400,
            r.concurrency == 3,
            r.check_update,
            r.history_limit == 100,
            r.history_limit <= HISTORY_LIMIT_MAX,
    {
        GeneralConfig {
            default_output_dir: None,
            collision_policy: owned("auto_inc"),
            normalize_audio: true,
            max_gain_cdb: 2400,
            concurrency: 3,
            check_update: true,
            history_limit: 100,
        }
    }
}

/// All settings.
#[derive(Debug, Clone)]
pub struct AppConfig {
    pub download: DownloadConfig,
    pub transcode: TranscodeConfig,
    pub general: GeneralConfig,
    pub dependencies: DependenciesConfig,
    pub network: NetworkConfig,
}

impl Default for AppConfig {
    fn default() -> (r: Self)
        ensures
            r.download.max_h == 1080 && r.download.fragments == 4 && !r.download.playlist
                && r.download.embed_cover && r.download.filename_template@ == "纯标题"@,
            r.transcode.force_encoder_mode@ == "auto"@ && r.transcode.low_power
                && r.transcode.keep_cover,
            r.general.concurrency == 3 && r.general.max_gain_cdb == 2400 && r.general.check_update
                && r.general.history_limit == 100 && r.general.normalize_audio
                && r.general.collision_policy@ == "auto_inc"@,
            r.dependencies.potoken_enabled && r.dependencies.yt_dlp_path is None,
            r.network.proxy_url@.len() == 0 && r.network.site_proxy.entries().len() == 0,
    {
        AppConfig {
            download: DownloadConfig::default(),
            transcode: TranscodeConfig::default(),
            general: GeneralConfig::default(),
            dependencies: DependenciesConfig::default(),
            network: NetworkConfig::default(),
        }
    }
}

/// Where a corrupt settings file is copied: the path with the extension
/// `corrupt-<secs>.json`.
pub open spec fn spec_corrupt_ext(secs: u64) -> Seq<char> {
    "corrupt-"@ + dec(secs as nat) + ".json"@
}

/// Extension given to the backup of a corrupt settings file.
pub fn corrupt_ext(secs: u64) -> (r: String)
    ensures
        r@ == spec_corrupt_ext(secs),
{
    let mut s = owned("corrupt-");
    push_dec(&mut s, secs);
    push_str(&mut s, ".json");
    s
}

/// The error for a settings file that does not parse: the parser's message
/// and where the file was backed up.
pub fn config_corrupt(parse_error: &str, backup: &str) -> (r: CoreError)
    ensures
        r matches CoreError::ConfigCorrupt(m) && m@ == parse_error@ + "（已备份到 "@ + backup@ + "）"@,
{
    let mut m = owned(parse_error);
    push_str(&mut m, "（已备份到 ");
    push_str(&mut m, backup);
    push_str(&mut m, "）");
    CoreError::ConfigCorrupt(m)
}


/// Without a proxy address every URL connects directly; with one and no
/// listed site every URL uses it; otherwise a URL uses the proxy address or
/// connects directly, never anything else.
pub proof fn law_resolve_proxy(proxy: Seq<char>, entries: Seq<(Seq<char>, bool)>, url: Seq<char>)
    ensures
        proxy.len() == 0 ==> spec_resolve_proxy(proxy, entries, url) is None,
        proxy.len() > 0 && entries.len() == 0 ==> spec_resolve_proxy(proxy, entries, url) == Some(proxy),
        spec_resolve_proxy(proxy, entries, url) is None || spec_resolve_proxy(proxy, entries, url)
            == Some(proxy),
{
}

/// A listed site that is not flagged keeps the hosts it covers (when no
/// earlier site covers them) off the proxy.
pub proof fn law_unflagged_site_is_direct(
    proxy: Seq<char>,
    entries: Seq<(Seq<char>, bool)>,
    url: Seq<char>,
    i: int,
)
    requires
        first_match(entries, spec_host_of(url), i),
        !entries[i].1,
    ensures
        spec_resolve_proxy(proxy, entries, url) is None,
{
    let host = spec_host_of(url);
    let j = choose|j: int| first_match(entries, host, j);
    if j < i {
        assert(!spec_site_matches(entries[j].0, host));
    } else if i < j {
        assert(!spec_site_matches(entries[i].0, host));
    }
}

} // verus!
