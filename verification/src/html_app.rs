//! The app resolver of wrapper pages: a page that hands its file out through an app API is
//! resolved by asking that API for the page's content with a guest account and a website
//! token, then picking the content's own link or its best child's.

use vstd::prelude::*;
use crate::chars::{before_first, prefix_before, trim_chars, trim_ws, TrimClass};
use crate::filename::{usable_ext_spec, usable_extension};
use crate::filename_policy::{sanitize_filename_leaf, sanitize_leaf_spec};
use crate::hex::hex_text;
use crate::model::opt_text;
use crate::probe_flow::HtmlApiResolvedDownload;
use crate::text::{chars_of, decimal_spec};
use crate::urls::{url_parts, url_parts_of};

verus! {

/// Seconds of one website-token time bucket.
pub const HTML_APP_API_BUCKET_WINDOW_SECONDS: u64 = 14400;

/// A link of the app API as a download link: its serialization when it parses as an http or
/// https URL.
pub open spec fn app_link_spec(value: Seq<char>) -> Option<Seq<char>> {
    match url_parts(value) {
        Some((scheme, _host, _path, serialized)) =>
            if scheme == "http"@ || scheme == "https"@ { Some(serialized) } else { None },
        None => None,
    }
}

pub fn normalize_html_app_direct_download_url(value: &str) -> (r: Option<String>)
    ensures
        opt_text(r) == match url_parts(value@) {
            Some((scheme, _host, _path, serialized)) =>
                if scheme == "http"@ || scheme == "https"@ { Some(serialized) } else { None },
            None => None,
        },
{
    match url_parts_of(value) {
        Some(parts) => {
            let scheme = chars_of(parts.scheme.as_str());
            if eq_text(scheme.as_slice(), "http") || eq_text(scheme.as_slice(), "https") {
                Some(parts.serialized)
            } else {
                None
            }
        },
        None => None,
    }
}

fn eq_text(e: &[char], lit: &str) -> (b: bool)
    ensures
        b == (e@ == lit@),
{
    crate::chars::chars_equal(e, chars_of(lit).as_slice())
}

/// The language a browser prefers first: the text before its first comma, trimmed, or the
/// whole setting when that piece is blank.
pub open spec fn primary_language_spec(s: Seq<char>) -> Seq<char> {
    let first = trim_ws(before_first(s, ','));
    if first.len() == 0 { s } else { first }
}

pub fn browser_primary_language(browser_language: &str) -> (r: String)
    ensures
        r@ == primary_language_spec(browser_language@),
{
    let all = chars_of(browser_language);
    let head = prefix_before(all.as_slice(), ',');
    let first = trim_chars(head.as_slice(), TrimClass::WhiteSpace);
    if first.len() == 0 {
        crate::chars::string_from_chars(all.as_slice())
    } else {
        crate::chars::string_from_chars(first.as_slice())
    }
}

/// The text a website token hashes: user agent, language, account token, time bucket and
/// seed, joined by `::`.
pub open spec fn website_token_text(user_agent: Seq<char>, language: Seq<char>, account_token: Seq<char>,
    seed: Seq<char>, bucket: u64) -> Seq<char> {
    user_agent + "::"@ + language + "::"@ + account_token + "::"@ + decimal_spec(bucket as nat) + "::"@ + seed
}

/// The website token of a time bucket: the lower-case hex SHA-256 of the token text.
pub open spec fn website_token_spec(user_agent: Seq<char>, language: Seq<char>, account_token: Seq<char>,
    seed: Seq<char>, bucket: u64) -> Seq<char> {
    hex_text(crate::capture_bridge::sha256_of(vstd::utf8::encode_utf8(
        website_token_text(user_agent, language, account_token, seed, bucket))))
}

pub fn generate_html_app_website_token_for_bucket(
    user_agent: &str,
    browser_language: &str,
    account_token: &str,
    website_token_seed: &str,
    bucket: u64,
) -> (r: String)
    ensures
        r@ == crate::hex::hex_text(crate::capture_bridge::sha256_of(vstd::utf8::encode_utf8(
            user_agent@ + "::"@ + browser_language@ + "::"@ + account_token@ + "::"@
                + decimal_spec(bucket as nat) + "::"@ + website_token_seed@))),
{
    let mut raw = String::new();
    raw.append(user_agent);
    raw.append("::");
    raw.append(browser_language);
    raw.append("::");
    raw.append(account_token);
    raw.append("::");
    let digits = crate::text::decimal_string(bucket);
    raw.append(digits.as_str());
    raw.append("::");
    raw.append(website_token_seed);
    assert(raw@ =~= user_agent@ + "::"@ + browser_language@ + "::"@ + account_token@ + "::"@
        + decimal_spec(bucket as nat) + "::"@ + website_token_seed@);
    let digest = crate::capture_bridge::sha256_digest(raw.as_str().as_bytes());
    crate::hex::hex_encode(digest.as_slice())
}

/// The website token for now: that of the bucket the clock's seconds since the epoch fall in.
/// Which bucket that is, is the machine's: the token is that of some bucket.
pub fn generate_html_app_website_token(
    user_agent: &str,
    browser_language: &str,
    account_token: &str,
    website_token_seed: &str,
) -> (r: String)
    ensures
        exists|bucket: u64| r@ == #[trigger] website_token_spec(user_agent@, browser_language@,
            account_token@, website_token_seed@, bucket),
{
    let now_millis = crate::host_planner::unix_epoch_millis();
    let now_seconds: u64 = (now_millis / 1000) as u64;
    let bucket = now_seconds / HTML_APP_API_BUCKET_WINDOW_SECONDS;
    let r = generate_html_app_website_token_for_bucket(user_agent, browser_language, account_token, website_token_seed, bucket);
    assert(r@ == website_token_spec(user_agent@, browser_language@, account_token@, website_token_seed@, bucket));
    r
}

/// One child of an app content listing.
#[derive(Clone, Debug)]
pub struct HtmlAppContentChild {
    pub link: Option<String>,
    pub name: Option<String>,
    pub kind: Option<String>,
}

/// App content: its own link, name and kind, and its children, keyed and in the order of
/// their keys.
#[derive(Clone, Debug)]
pub struct HtmlAppContentData {
    pub link: Option<String>,
    pub name: Option<String>,
    pub kind: Option<String>,
    pub children: Vec<(String, HtmlAppContentChild)>,
}

/// Code-point order of texts: a proper prefix comes first.
pub open spec fn text_before(a: Seq<char>, b: Seq<char>) -> bool
    decreases a.len(),
{
    if b.len() == 0 {
        false
    } else if a.len() == 0 {
        true
    } else if a[0] != b[0] {
        (a[0] as u32) < (b[0] as u32)
    } else {
        text_before(a.drop_first(), b.drop_first())
    }
}

impl HtmlAppContentData {
    /// The children stand in strictly ascending key order, as a sorted map walks them.
    pub open spec fn keys_ascending(&self) -> bool {
        forall|i: int, j: int| 0 <= i < j < self.children@.len()
            ==> text_before(#[trigger] self.children@[i].0@, #[trigger] self.children@[j].0@)
    }
}

/// What a child counts for: 50 as a file, 100 for a name with a usable extension.
pub open spec fn child_score_spec(c: HtmlAppContentChild) -> int {
    (if opt_text(c.kind) == Some("file"@) { 50int } else { 0int })
        + (match c.name {
            Some(n) => if usable_ext_spec(n@) is Some { 100int } else { 0int },
            None => 0int,
        })
}

/// The index of the last child with the highest score among the first `n`.
pub open spec fn best_child_index(children: Seq<(String, HtmlAppContentChild)>, n: int) -> int
    decreases n,
{
    if n <= 1 {
        0
    } else {
        let b = best_child_index(children, n - 1);
        if child_score_spec(children[n - 1].1) >= child_score_spec(children[b].1) { n - 1 } else { b }
    }
}

/// A sanitized name, when there is one.
pub open spec fn leaf_of(name: Option<String>) -> Option<Seq<char>> {
    match name {
        Some(n) => sanitize_leaf_spec(n@),
        None => None,
    }
}

/// A download link of an optional app link.
pub open spec fn opt_link_of(link: Option<String>) -> Option<Seq<char>> {
    match link {
        Some(l) => app_link_spec(l@),
        None => None,
    }
}

/// A resolved download as plain values: link, name and cookies.
pub open spec fn resolved_view(r: Option<HtmlApiResolvedDownload>) -> Option<(Seq<char>, Option<Seq<char>>, Option<Seq<char>>)> {
    match r {
        Some(d) => Some((d.direct_download_url@, opt_text(d.suggested_name), opt_text(d.request_cookies))),
        None => None,
    }
}

/// The download of app content: its own link unless it is a folder; else the only child's,
/// or that of the last child with the highest score; the name sanitized and the account
/// cookie sent along.
pub open spec fn select_download_spec(content: HtmlAppContentData, cookie: Seq<char>)
    -> Option<(Seq<char>, Option<Seq<char>>, Option<Seq<char>>)> {
    let own = if opt_text(content.kind) != Some("folder"@) { opt_link_of(content.link) } else { None };
    if own is Some {
        Some((own.unwrap(), leaf_of(content.name), Some(cookie)))
    } else if content.children@.len() == 0 {
        None
    } else {
        let child = content.children@[best_child_index(content.children@, content.children@.len() as int)].1;
        match opt_link_of(child.link) {
            Some(u) => Some((u, leaf_of(child.name), Some(cookie))),
            None => None,
        }
    }
}

/// The child picked among several is the last one with the highest score: none scores
/// more, and none after it scores as much. With the children in key order, that is the
/// top-scoring child with the greatest key.
pub proof fn lemma_best_child_is_last_max(children: Seq<(String, HtmlAppContentChild)>, n: int)
    requires
        1 <= n <= children.len(),
    ensures
        0 <= best_child_index(children, n) < n,
        forall|j: int| 0 <= j < n
            ==> child_score_spec(#[trigger] children[j].1) <= child_score_spec(children[best_child_index(children, n)].1),
        forall|j: int| best_child_index(children, n) < j < n
            ==> child_score_spec(#[trigger] children[j].1) < child_score_spec(children[best_child_index(children, n)].1),
    decreases n,
{
    if n > 1 {
        lemma_best_child_is_last_max(children, n - 1);
    }
}

/// Children in key order, as a sorted map walks them: the child picked is, among those with
/// the highest score, the one with the greatest key.
pub proof fn lemma_best_child_greatest_key(content: HtmlAppContentData)
    requires
        content.keys_ascending(),
        content.children@.len() >= 1,
    ensures
        ({
            let cs = content.children@;
            let b = best_child_index(cs, cs.len() as int);
            forall|j: int| 0 <= j < cs.len() && j != b
                && child_score_spec(#[trigger] cs[j].1) == child_score_spec(cs[b].1)
                ==> text_before(cs[j].0@, cs[b].0@)
        }),
{
    let cs = content.children@;
    lemma_best_child_is_last_max(cs, cs.len() as int);
}

fn opt_is(v: &Option<String>, lit: &str) -> (b: bool)
    ensures
        b == (opt_text(*v) == Some(lit@)),
{
    match v {
        Some(s) => eq_text(chars_of(s.as_str()).as_slice(), lit),
        None => false,
    }
}

fn child_score(c: &HtmlAppContentChild) -> (r: i32)
    ensures
        r == child_score_spec(*c),
        0 <= r <= 150,
{
    let mut score: i32 = 0;
    if opt_is(&c.kind, "file") {
        score = score + 50;
    }
    match &c.name {
        Some(n) => {
            let chars = chars_of(n.as_str());
            if usable_extension(chars.as_slice()).is_some() {
                score = score + 100;
            }
        },
        None => {},
    }
    score
}

fn app_link(link: &Option<String>) -> (r: Option<String>)
    ensures
        opt_text(r) == opt_link_of(*link),
{
    match link {
        Some(l) => normalize_html_app_direct_download_url(l.as_str()),
        None => None,
    }
}

fn leaf(name: &Option<String>) -> (r: Option<String>)
    ensures
        opt_text(r) == leaf_of(*name),
{
    match name {
        Some(n) => sanitize_filename_leaf(n.as_str()),
        None => None,
    }
}

pub fn select_html_app_direct_download(content: &HtmlAppContentData, account_cookie: &str) -> (r: Option<HtmlApiResolvedDownload>)
    ensures
        resolved_view(r) == select_download_spec(*content, account_cookie@),
{
    let cookie = crate::chars::string_from_chars(chars_of(account_cookie).as_slice());
    if !opt_is(&content.kind, "folder") {
        match app_link(&content.link) {
            Some(direct_download_url) => {
                return Some(HtmlApiResolvedDownload {
                    direct_download_url,
                    suggested_name: leaf(&content.name),
                    request_cookies: Some(cookie),
                });
            },
            None => {},
        }
    }
    let n = content.children.len();
    if n == 0 {
        return None;
    }
    let mut best: usize = 0;
    let mut best_score: i32 = child_score(&content.children[0].1);
    let mut i: usize = 1;
    while i < n
        invariant
            n == content.children@.len(),
            1 <= i <= n,
            best as int == best_child_index(content.children@, i as int),
            best < i,
            best_score == child_score_spec(content.children@[best as int].1),
        decreases n - i,
    {
        let s = child_score(&content.children[i].1);
        if s >= best_score {
            best = i;
            best_score = s;
        }
        i = i + 1;
    }
    let child = &content.children[best].1;
    match app_link(&child.link) {
        Some(direct_download_url) => Some(HtmlApiResolvedDownload {
            direct_download_url,
            suggested_name: leaf(&child.name),
            request_cookies: Some(cookie),
        }),
        None => None,
    }
}

} // verus!
