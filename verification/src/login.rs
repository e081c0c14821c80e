//! The built-in login window: which sites have one, the script that puts
//! the "登录完成" bar on the page, and the cookies read back from the page.
use vstd::prelude::*;

use crate::text::{
    chars_eq, chars_of, contains, owned, push_str, slice_chars, split_char, split_char_exec, split_once,
    split_once_exec, starts_with, starts_with_exec, ends_with, ends_with_exec, str_contains, str_is, string_of, to_lowercase,
    trim, trim_chars, unicode_lowercase,
};

verus! {

/// The host is the domain `d` or one of its subdomains.
pub open spec fn on_domain(host: Seq<char>, d: Seq<char>) -> bool {
    host == d || ends_with(host, "."@ + d)
}

/// Login page for a host of a known site: one whose lowercased name
/// mentions the site's brand (youtube, bilibili, twitter, douyin), or that is
/// on one of its short domains (`youtu.be`, `x.com`).
pub open spec fn spec_login_url(lower: Seq<char>) -> Option<Seq<char>> {
    if contains(lower, "youtube"@) || on_domain(lower, "youtu.be"@) {
        Some("https://www.youtube.com/"@)
    } else if contains(lower, "bilibili"@) {
        Some("https://www.bilibili.com/"@)
    } else if on_domain(lower, "x.com"@) || contains(lower, "twitter"@) {
        Some("https://x.com/"@)
    } else if contains(lower, "douyin"@) {
        Some("https://www.douyin.com/"@)
    } else {
        None
    }
}

/// Whether `host` is the domain `d` or a subdomain of it.
fn on_domain_exec(host: &Vec<char>, d: &str) -> (r: bool)
    ensures
        r == on_domain(host@, d@),
{
    let dv = chars_of(d);
    let mut dotted = chars_of(".");
    let ghost dot = dotted@;
    proof {
        reveal_strlit(".");
    }
    for i in 0..dv.len()
        invariant
            dotted@ == dot + dv@.take(i as int),
            dot == "."@,
    {
        dotted.push(dv[i]);
        assert(dv@.take(i + 1) == dv@.take(i as int).push(dv@[i as int]));
    }
    assert(dv@.take(dv@.len() as int) == dv@);
    chars_eq(host, &dv) || ends_with_exec(host, &dotted)
}

/// Login page for an already lowercased host.
pub fn login_url_for_lower(lower: &str) -> (r: Option<String>)
    ensures
        match r {
            Some(u) => spec_login_url(lower@) == Some(u@),
            None => spec_login_url(lower@) is None,
        },
{
    let l = chars_of(lower);
    if str_contains(&l, "youtube") || on_domain_exec(&l, "youtu.be") {
        Some(owned("https://www.youtube.com/"))
    } else if str_contains(&l, "bilibili") {
        Some(owned("https://www.bilibili.com/"))
    } else if on_domain_exec(&l, "x.com") || str_contains(&l, "twitter") {
        Some(owned("https://x.com/"))
    } else if str_contains(&l, "douyin") {
        Some(owned("https://www.douyin.com/"))
    } else {
        None
    }
}

/// Login page for a host that has the built-in login.
pub fn login_url_for_host(host: &str) -> (r: Option<String>)
    ensures
        match r {
            Some(u) => spec_login_url(unicode_lowercase(host@)) == Some(u@),
            None => spec_login_url(unicode_lowercase(host@)) is None,
        },
{
    let lower = to_lowercase(host);
    login_url_for_lower(lower.as_str())
}

/// One `name=value` piece of a cookie string, trimmed; none for an empty
/// piece or one without `=`.
pub open spec fn cookie_piece(part: Seq<char>) -> Option<(Seq<char>, Seq<char>)> {
    let p = trim(part);
    if p.len() == 0 {
        None
    } else {
        match split_once(p, "="@) {
            Some((k, v)) => Some((trim(k), trim(v))),
            None => None,
        }
    }
}

/// The cookies of the pieces, in order.
pub open spec fn cookie_pieces(parts: Seq<Seq<char>>) -> Seq<(Seq<char>, Seq<char>)>
    decreases parts.len(),
{
    if parts.len() == 0 {
        Seq::empty()
    } else {
        let rest = cookie_pieces(parts.drop_last());
        match cookie_piece(parts.last()) {
            Some(c) => rest.push(c),
            None => rest,
        }
    }
}

/// What a `a=b; c=d` cookie string holds.
pub open spec fn spec_parse_cookie_header(s: Seq<char>) -> Seq<(Seq<char>, Seq<char>)> {
    cookie_pieces(split_char(s, ';'))
}

pub open spec fn pair_views(v: Seq<(String, String)>) -> Seq<(Seq<char>, Seq<char>)> {
    v.map_values(|p: (String, String)| (p.0@, p.1@))
}

/// Parses a `a=b; c=d` cookie string.
pub fn parse_cookie_header(s: &str) -> (r: Vec<(String, String)>)
    ensures
        pair_views(r@) == spec_parse_cookie_header(s@),
{
    let v = chars_of(s);
    let parts = split_char_exec(&v, ';');
    let ghost ps = split_char(s@, ';');
    let eq = chars_of("=");
    let mut out: Vec<(String, String)> = Vec::new();
    for i in 0..parts.len()
        invariant
            ps == parts@.map_values(|w: Vec<char>| w@),
            eq@ == "="@,
            pair_views(out@) == cookie_pieces(ps.take(i as int)),
    {
        proof {
            assert(ps.take(i + 1).drop_last() =~= ps.take(i as int));
            assert(ps.take(i + 1).last() == parts@[i as int]@);
        }
        let p = trim_chars(&parts[i]);
        if p.len() > 0 {
            match split_once_exec(&p, &eq) {
                Some((k, val)) => {
                    let kt = trim_chars(&k);
                    let vt = trim_chars(&val);
                    let ghost before = pair_views(out@);
                    out.push((string_of(&kt), string_of(&vt)));
                    assert(pair_views(out@) =~= before.push((kt@, vt@)));
                },
                None => {},
            }
        }
    }
    assert(ps.take(parts.len() as int) =~= ps);
    out
}

/// The script injected into the login window: a fixed "登录完成" button with
/// a hint bar at the top centre, rebuilt every 800 ms for single-page sites;
/// the button leaves for the local done address carrying `document.cookie`.
pub const LOGIN_INJECT_SCRIPT: &'static str = r#"
(function () {
  'use strict';
  function ensure() {
    if (document.getElementById('ytdlp-login-bar')) { return; }
    var bar = document.createElement('div');
    bar.id = 'ytdlp-login-bar';
    bar.setAttribute('style',
      'position:fixed;top:0;left:50%;transform:translateX(-50%);z-index:2147483647;' +
      'display:flex;flex-direction:column;align-items:center;gap:4px;' +
      'padding:6px 16px 8px;background:rgba(15,118,110,0.96);border-radius:0 0 10px 10px;' +
      'box-shadow:0 2px 10px rgba(0,0,0,0.35);font-family:system-ui,sans-serif;');
    var btn = document.createElement('button');
    btn.id = 'ytdlp-login-btn';
    btn.textContent = '登录完成';
    btn.setAttribute('style',
      'border:none;cursor:pointer;font-size:14px;font-weight:600;color:#ffffff;' +
      'background:#0f766e;padding:8px 22px;border-radius:6px;box-shadow:0 0 0 1px rgba(255,255,255,0.5);');
    btn.onclick = function () {
      var cookies = encodeURIComponent(document.cookie);
      var host = encodeURIComponent(location.hostname);
      window.location.href = 'http://127.0.0.1/ytdlp-login-done?host=' + host + '&cookies=' + cookies;
    };
    var hint = document.createElement('div');
    hint.id = 'ytdlp-login-hint';
    hint.textContent = '登录完成后点击上方"登录完成"按钮保存 Cookie';
    hint.setAttribute('style', 'font-size:12px;color:rgba(255,255,255,0.9);');
    bar.appendChild(btn);
    bar.appendChild(hint);
    var root = document.body || document.documentElement;
    root.appendChild(bar);
  }
  ensure();
  setInterval(ensure, 800);
  function failHint() {
    if (document.getElementById('ytdlp-fail-hint')) { return; }
    if (document.readyState === 'complete' && document.body && document.body.childElementCount === 0) {
      var el = document.createElement('div');
      el.id = 'ytdlp-fail-hint';
      el.textContent = '页面加载失败：登录窗走系统代理，请先在代理软件中开启"系统代理"后重试，或点右上角 × 关闭';
      el.setAttribute('style',
        'position:fixed;left:0;right:0;bottom:0;z-index:2147483646;' +
        'background:#7f1d1d;color:#fff;font-family:system-ui,sans-serif;font-size:13px;' +
        'padding:10px 16px;text-align:center;');
      (document.body || document.documentElement).appendChild(el);
    }
  }
  setInterval(failHint, 800);
})();
"#;

/// The script injected into the login window.
pub fn login_inject_script() -> (r: String)
    ensures
        r@ == LOGIN_INJECT_SCRIPT@,
{
    owned(LOGIN_INJECT_SCRIPT)
}

// ---------------------------------------------------------------------------
// Cookies carried back by the done address

/// A cookie saved for a site.
#[derive(Debug, Clone)]
pub struct CookieEntry {
    pub name: String,
    pub value: String,
    pub domain: String,
    pub path: String,
    pub expires: Option<i64>,
    pub http_only: bool,
    pub secure: bool,
    pub same_site: String,
}

/// The query pairs of a URL, percent-decoded (`Url::parse`, then
/// `query_pairs`); none when the URL does not parse.
pub uninterp spec fn url_query_pairs(url: Seq<char>) -> Option<Seq<(Seq<char>, Seq<char>)>>;

/// `url::Url::parse` followed by `query_pairs`, each pair copied out.
/// Trusted: the result is named by `url_query_pairs` of the text.
#[verifier::external_body]
fn query_pairs_of(url: &str) -> (r: Option<Vec<(String, String)>>)
    ensures
        match r {
            Some(v) => url_query_pairs(url@) == Some(pair_views(v@)),
            None => url_query_pairs(url@) is None,
        },
{
    match url::Url::parse(url) {
        Ok(u) => Some(u.query_pairs().map(|(k, v)| (k.into_owned(), v.into_owned())).collect()),
        Err(_) => None,
    }
}

/// `s` with every leading copy of `p` removed (`trim_start_matches`).
pub open spec fn strip_prefix_rep(s: Seq<char>, p: Seq<char>) -> Seq<char>
    decreases s.len(),
{
    if p.len() > 0 && starts_with(s, p) {
        strip_prefix_rep(s.skip(p.len() as int), p)
    } else {
        s
    }
}

fn strip_prefix_rep_exec(s: &Vec<char>, p: &Vec<char>) -> (r: Vec<char>)
    ensures
        r@ == strip_prefix_rep(s@, p@),
    decreases s.len(),
{
    if p.len() > 0 && starts_with_exec(s, p) {
        let t = slice_chars(s, p.len(), s.len());
        assert(t@ == s@.skip(p@.len() as int));
        strip_prefix_rep_exec(&t, p)
    } else {
        s.clone()
    }
}

/// Cookie domain for a host: a dot, then the host without leading `www.`.
pub open spec fn spec_cookie_domain(host: Seq<char>) -> Seq<char> {
    seq!['.'] + strip_prefix_rep(host, "www."@)
}

/// The cookies of the `cookies` query values, in order.
pub open spec fn cookies_in_pairs(pairs: Seq<(Seq<char>, Seq<char>)>) -> Seq<(Seq<char>, Seq<char>)>
    decreases pairs.len(),
{
    if pairs.len() == 0 {
        Seq::empty()
    } else {
        let rest = cookies_in_pairs(pairs.drop_last());
        if pairs.last().0 == "cookies"@ {
            rest + spec_parse_cookie_header(pairs.last().1)
        } else {
            rest
        }
    }
}

/// The cookies that the done address carries for `host`: the pairs of its
/// `cookies` parameters, each saved for the host's domain, path `/`, no
/// expiry, not HTTP-only, secure, same-site `lax`.
pub fn cookies_from_done_url(url: &str, host: &str) -> (r: Vec<CookieEntry>)
    ensures
        match url_query_pairs(url@) {
            Some(pairs) => {
                let cs = cookies_in_pairs(pairs);
                &&& r@.len() == cs.len()
                &&& forall|i: int|
                    0 <= i < r@.len() ==> {
                        let e = #[trigger] r@[i];
                        &&& e.name@ == cs[i].0
                        &&& e.value@ == cs[i].1
                        &&& e.domain@ == spec_cookie_domain(host@)
                        &&& e.path@ == "/"@
                        &&& e.expires is None
                        &&& !e.http_only
                        &&& e.secure
                        &&& e.same_site@ == "lax"@
                    }
            },
            None => r@.len() == 0,
        },
{
    let mut out: Vec<CookieEntry> = Vec::new();
    let pairs = match query_pairs_of(url) {
        Some(p) => p,
        None => return out,
    };
    let ghost ps = pair_views(pairs@);
    let www = chars_of("www.");
    let hv = chars_of(host);
    let stripped = strip_prefix_rep_exec(&hv, &www);
    let mut domain = String::new();
    domain.push('.');
    let sd = string_of(&stripped);
    push_str(&mut domain, sd.as_str());
    assert(domain@ =~= spec_cookie_domain(host@));
    for i in 0..pairs.len()
        invariant
            ps == pair_views(pairs@),
            domain@ == spec_cookie_domain(host@),
            out@.len() == cookies_in_pairs(ps.take(i as int)).len(),
            forall|j: int|
                0 <= j < out@.len() ==> {
                    let e = #[trigger] out@[j];
                    &&& e.name@ == cookies_in_pairs(ps.take(i as int))[j].0
                    &&& e.value@ == cookies_in_pairs(ps.take(i as int))[j].1
                    &&& e.domain@ == spec_cookie_domain(host@)
                    &&& e.path@ == "/"@
                    &&& e.expires is None
                    &&& !e.http_only
                    &&& e.secure
                    &&& e.same_site@ == "lax"@
                },
    {
        let ghost before = cookies_in_pairs(ps.take(i as int));
        proof {
            assert(ps.take(i + 1).drop_last() =~= ps.take(i as int));
            assert(ps.take(i + 1).last() == (pairs@[i as int].0@, pairs@[i as int].1@));
        }
        if str_is(pairs[i].0.as_str(), "cookies") {
            let cs = parse_cookie_header(pairs[i].1.as_str());
            let ghost cv = pair_views(cs@);
            let ghost start = out@.len();
            for j in 0..cs.len()
                invariant
                    cv == pair_views(cs@),
                    domain@ == spec_cookie_domain(host@),
                    start == before.len(),
                    out@.len() == start + j,
                    forall|k: int|
                        0 <= k < out@.len() ==> {
                            let e = #[trigger] out@[k];
                            &&& e.name@ == (before + cv)[k].0
                            &&& e.value@ == (before + cv)[k].1
                            &&& e.domain@ == spec_cookie_domain(host@)
                            &&& e.path@ == "/"@
                            &&& e.expires is None
                            &&& !e.http_only
                            &&& e.secure
                            &&& e.same_site@ == "lax"@
                        },
            {
                let entry = CookieEntry {
                    name: cs[j].0.clone(),
                    value: cs[j].1.clone(),
                    domain: domain.clone(),
                    path: owned("/"),
                    expires: None,
                    http_only: false,
                    secure: true,
                    same_site: owned("lax"),
                };
                out.push(entry);
            }
            assert(cookies_in_pairs(ps.take(i + 1)) =~= before + cv);
        } else {
            assert(cookies_in_pairs(ps.take(i + 1)) =~= before);
        }
    }
    assert(ps.take(pairs.len() as int) =~= ps);
    out
}

} // verus!
