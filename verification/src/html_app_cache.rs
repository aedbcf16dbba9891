//! The guest tokens of app APIs, kept per API base: a token is reused until it expires,
//! failures of an API back it off for a time that doubles with each one (up to a cap), and
//! repeated failures drop its token. Times are seconds since the epoch, read by the caller.

use vstd::prelude::*;
use crate::arith::{sat_add, u64_sat_add};
use crate::scopes::copy_opt_string;
use crate::text::{decimal_spec, str_equal};

verus! {

pub const HTML_APP_GUEST_TOKEN_TTL_SECONDS: u64 = 600;
pub const HTML_APP_API_BACKOFF_BASE_SECONDS: u64 = 30;
pub const HTML_APP_API_BACKOFF_MAX_SECONDS: u64 = 300;

/// What is known of one app API.
#[derive(Clone, Debug)]
pub struct HtmlAppGuestTokenCacheEntry {
    pub token: Option<String>,
    pub token_expires_at: Option<u64>,
    pub backoff_until: Option<u64>,
    pub failure_count: u32,
}

/// The entries of the app APIs, each API base at most once.
#[derive(Debug)]
pub struct HtmlAppGuestTokenCache {
    pub entries: Vec<(String, HtmlAppGuestTokenCacheEntry)>,
}

pub open spec fn keys_distinct(es: Seq<(String, HtmlAppGuestTokenCacheEntry)>) -> bool {
    forall|a: int, b: int| 0 <= a < es.len() && 0 <= b < es.len() && a != b ==> es[a].0@ != es[b].0@
}

/// The entry of the API at `key`, if there is one.
pub open spec fn entry_of(es: Seq<(String, HtmlAppGuestTokenCacheEntry)>, key: Seq<char>) -> Option<HtmlAppGuestTokenCacheEntry> {
    if exists|i: int| 0 <= i < es.len() && #[trigger] es[i].0@ == key {
        Some(es[choose|i: int| 0 <= i < es.len() && #[trigger] es[i].0@ == key].1)
    } else {
        None
    }
}

pub open spec fn empty_entry() -> HtmlAppGuestTokenCacheEntry {
    HtmlAppGuestTokenCacheEntry { token: None, token_expires_at: None, backoff_until: None, failure_count: 0 }
}

/// The entry of `key`, or a blank one.
pub open spec fn entry_or_blank(es: Seq<(String, HtmlAppGuestTokenCacheEntry)>, key: Seq<char>) -> HtmlAppGuestTokenCacheEntry {
    match entry_of(es, key) {
        Some(e) => e,
        None => empty_entry(),
    }
}

/// The entries after the one of `key` became `e`: every other API keeps its entry.
pub open spec fn entries_after(old_es: Seq<(String, HtmlAppGuestTokenCacheEntry)>, new_es: Seq<(String, HtmlAppGuestTokenCacheEntry)>,
    key: Seq<char>, e: HtmlAppGuestTokenCacheEntry) -> bool {
    &&& keys_distinct(new_es)
    &&& entry_of(new_es, key) == Some(e)
    &&& forall|k: Seq<char>| k != key ==> #[trigger] entry_of(new_es, k) == entry_of(old_es, k)
}

/// The message of a lookup refused while the API backs off, `seconds` before it may be tried.
pub open spec fn cooling_message(seconds: int) -> Seq<char> {
    "Wrapper app API is cooling down after recent failures; retry in "@ + decimal_spec(seconds as nat) + " seconds."@
}

/// A lookup at `now`: refused while the API backs off, else its token while it is valid.
pub open spec fn cached_token_spec(es: Seq<(String, HtmlAppGuestTokenCacheEntry)>, key: Seq<char>, now: u64) -> Result<Option<String>, Seq<char>> {
    match entry_of(es, key) {
        None => Ok(None),
        Some(e) => match e.backoff_until {
            Some(b) if b > now => Err(cooling_message(b - now)),
            _ => match (e.token, e.token_expires_at) {
                (Some(t), Some(x)) if x > now => Ok(Some(t)),
                _ => Ok(None),
            },
        },
    }
}

/// The back-off after `failures` failures: the base doubled for each earlier one, at most
/// four times, capped.
pub open spec fn backoff_seconds_spec(failures: u32) -> int {
    let exponent = if failures <= 1 { 0 } else if failures - 1 > 4 { 4 } else { failures - 1 };
    let pow = if exponent == 0 { 1int } else if exponent == 1 { 2int } else if exponent == 2 { 4int } else if exponent == 3 { 8int } else { 16int };
    let b = HTML_APP_API_BACKOFF_BASE_SECONDS * pow;
    if b > HTML_APP_API_BACKOFF_MAX_SECONDS { HTML_APP_API_BACKOFF_MAX_SECONDS as int } else { b }
}

proof fn lemma_entry_at(es: Seq<(String, HtmlAppGuestTokenCacheEntry)>, i: int)
    requires
        keys_distinct(es),
        0 <= i < es.len(),
    ensures
        entry_of(es, es[i].0@) == Some(es[i].1),
{
    let j = choose|j: int| 0 <= j < es.len() && #[trigger] es[j].0@ == es[i].0@;
    assert(es[j].0@ == es[i].0@);
}

proof fn lemma_set_entry(es: Seq<(String, HtmlAppGuestTokenCacheEntry)>, i: int, e: HtmlAppGuestTokenCacheEntry)
    requires
        keys_distinct(es),
        0 <= i < es.len(),
    ensures
        entries_after(es, es.update(i, (es[i].0, e)), es[i].0@, e),
{
    let key = es[i].0@;
    let n = es.update(i, (es[i].0, e));
    assert(keys_distinct(n)) by {
        assert forall|a: int, b: int| 0 <= a < n.len() && 0 <= b < n.len() && a != b implies n[a].0@ != n[b].0@ by {
            assert(n[a].0 == es[a].0 && n[b].0 == es[b].0);
        }
    }
    lemma_entry_at(n, i);
    assert forall|k: Seq<char>| k != key implies #[trigger] entry_of(n, k) == entry_of(es, k) by {
        if exists|j: int| 0 <= j < es.len() && #[trigger] es[j].0@ == k {
            let j = choose|j: int| 0 <= j < es.len() && #[trigger] es[j].0@ == k;
            assert(j != i);
            assert(n[j] == es[j]);
            lemma_entry_at(es, j);
            lemma_entry_at(n, j);
        } else {
            assert forall|j: int| 0 <= j < n.len() implies #[trigger] n[j].0@ != k by {
                assert(n[j].0 == es[j].0);
            }
        }
    }
}

proof fn lemma_push_entry(es: Seq<(String, HtmlAppGuestTokenCacheEntry)>, key: String, e: HtmlAppGuestTokenCacheEntry)
    requires
        keys_distinct(es),
        entry_of(es, key@) is None,
    ensures
        entries_after(es, es.push((key, e)), key@, e),
{
    let n = es.push((key, e));
    assert(forall|j: int| 0 <= j < es.len() ==> #[trigger] es[j].0@ != key@);
    assert(keys_distinct(n)) by {
        assert forall|a: int, b: int| 0 <= a < n.len() && 0 <= b < n.len() && a != b implies n[a].0@ != n[b].0@ by {
            if a < es.len() && b < es.len() {
                assert(n[a] == es[a] && n[b] == es[b]);
            } else if a < es.len() {
                assert(n[a] == es[a]);
            } else {
                assert(n[b] == es[b]);
            }
        }
    }
    lemma_entry_at(n, es.len() as int);
    assert forall|k: Seq<char>| k != key@ implies #[trigger] entry_of(n, k) == entry_of(es, k) by {
        if exists|j: int| 0 <= j < es.len() && #[trigger] es[j].0@ == k {
            let j = choose|j: int| 0 <= j < es.len() && #[trigger] es[j].0@ == k;
            assert(n[j] == es[j]);
            lemma_entry_at(es, j);
            lemma_entry_at(n, j);
        } else {
            assert forall|j: int| 0 <= j < n.len() implies #[trigger] n[j].0@ != k by {
                if j < es.len() { assert(n[j] == es[j]); }
            }
        }
    }
}

/// The API at `key` holds `token`, cached at `now`: valid for the token lifetime, with no
/// back-off and no failures.
pub open spec fn freshly_cached(es: Seq<(String, HtmlAppGuestTokenCacheEntry)>, key: Seq<char>, token: Seq<char>, now: u64) -> bool {
    entry_of(es, key) matches Some(e) && e.token matches Some(t) && t@ == token
        && e.token_expires_at == Some(sat_add(now as int, HTML_APP_GUEST_TOKEN_TTL_SECONDS as int) as u64)
        && e.backoff_until is None && e.failure_count == 0
}

/// A token cached at `now` is what a lookup gives until the token lifetime has passed.
pub proof fn lemma_cached_token_reused(es: Seq<(String, HtmlAppGuestTokenCacheEntry)>, key: Seq<char>, token: Seq<char>, now: u64, later: u64)
    requires
        freshly_cached(es, key, token, now),
        later < sat_add(now as int, HTML_APP_GUEST_TOKEN_TTL_SECONDS as int),
    ensures
        cached_token_spec(es, key, later) matches Ok(Some(t)) && t@ == token,
{
}

/// While an API backs off, every lookup of its token is refused.
pub proof fn lemma_backoff_refuses(es: Seq<(String, HtmlAppGuestTokenCacheEntry)>, key: Seq<char>, later: u64)
    requires
        entry_of(es, key) matches Some(e) && e.backoff_until matches Some(u) && later < u,
    ensures
        cached_token_spec(es, key, later) is Err,
{
}

/// Right after a failure is noted at `now`, the API backs off: a lookup at `now` is refused.
pub proof fn lemma_failure_backs_off(old_es: Seq<(String, HtmlAppGuestTokenCacheEntry)>, new_es: Seq<(String, HtmlAppGuestTokenCacheEntry)>,
    key: Seq<char>, e: HtmlAppGuestTokenCacheEntry, now: u64)
    requires
        entries_after(old_es, new_es, key, e),
        e.backoff_until == Some(sat_add(now as int, backoff_seconds_spec(e.failure_count)) as u64),
        now + HTML_APP_API_BACKOFF_MAX_SECONDS <= u64::MAX,
    ensures
        cached_token_spec(new_es, key, now) is Err,
{
    assert(HTML_APP_API_BACKOFF_BASE_SECONDS <= backoff_seconds_spec(e.failure_count) <= HTML_APP_API_BACKOFF_MAX_SECONDS);
}

fn copy_entry(e: &HtmlAppGuestTokenCacheEntry) -> (r: HtmlAppGuestTokenCacheEntry)
    ensures
        r == *e,
{
    HtmlAppGuestTokenCacheEntry {
        token: copy_opt_string(&e.token),
        token_expires_at: e.token_expires_at,
        backoff_until: e.backoff_until,
        failure_count: e.failure_count,
    }
}

impl HtmlAppGuestTokenCache {
    pub open spec fn wf(&self) -> bool {
        keys_distinct(self.entries@)
    }

    /// A cache with no entries.
    pub fn new() -> (r: Self)
        ensures
            r.wf(),
            forall|k: Seq<char>| #[trigger] entry_of(r.entries@, k) is None,
    {
        HtmlAppGuestTokenCache { entries: Vec::new() }
    }

    fn find(&self, key: &str) -> (r: Option<usize>)
        requires
            self.wf(),
        ensures
            match r {
                Some(i) => i < self.entries@.len() && self.entries@[i as int].0@ == key@
                    && entry_of(self.entries@, key@) == Some(self.entries@[i as int].1),
                None => entry_of(self.entries@, key@) is None,
            },
    {
        let mut i: usize = 0;
        while i < self.entries.len()
            invariant
                i <= self.entries@.len(),
                keys_distinct(self.entries@),
                forall|j: int| 0 <= j < i ==> #[trigger] self.entries@[j].0@ != key@,
            decreases self.entries@.len() - i,
        {
            if str_equal(self.entries[i].0.as_str(), key) {
                proof { lemma_entry_at(self.entries@, i as int); }
                return Some(i);
            }
            i = i + 1;
        }
        None
    }

    fn put(&mut self, key: &str, e: HtmlAppGuestTokenCacheEntry)
        requires
            old(self).wf(),
        ensures
            final(self).wf(),
            entries_after(old(self).entries@, final(self).entries@, key@, e),
    {
        match self.find(key) {
            Some(i) => {
                let k = self.entries[i].0.clone();
                proof { lemma_set_entry(self.entries@, i as int, e); }
                self.entries.set(i, (k, e));
            },
            None => {
                let k = crate::chars::string_from_chars(crate::text::chars_of(key).as_slice());
                proof { lemma_push_entry(self.entries@, k, e); }
                self.entries.push((k, e));
            },
        }
    }

    /// The token of the API at `api_base_url` at `now`: refused while the API backs off.
    pub fn cached_html_app_guest_token_at(&self, api_base_url: &str, now: u64) -> (r: Result<Option<String>, String>)
        requires
            self.wf(),
        ensures
            match r {
                Ok(t) => cached_token_spec(self.entries@, api_base_url@, now) == Ok::<Option<String>, Seq<char>>(t),
                Err(m) => cached_token_spec(self.entries@, api_base_url@, now) == Err::<Option<String>, Seq<char>>(m@),
            },
    {
        let i = match self.find(api_base_url) {
            Some(i) => i,
            None => { return Ok(None); },
        };
        let e = &self.entries[i].1;
        match e.backoff_until {
            Some(b) => {
                if b > now {
                    let mut m = String::new();
                    m.append("Wrapper app API is cooling down after recent failures; retry in ");
                    let digits = crate::text::decimal_string(b - now);
                    m.append(digits.as_str());
                    m.append(" seconds.");
                    assert(m@ =~= cooling_message(b - now));
                    return Err(m);
                }
            },
            None => {},
        }
        match (&e.token, e.token_expires_at) {
            (Some(t), Some(x)) => if x > now { Ok(Some(t.clone())) } else { Ok(None) },
            _ => Ok(None),
        }
    }

    /// Keeps a fresh token for the API at `now`: valid for the token lifetime, with its
    /// back-off and failures cleared.
    pub fn cache_html_app_guest_token_at(&mut self, api_base_url: &str, token: &str, now: u64)
        requires
            old(self).wf(),
        ensures
            final(self).wf(),
            freshly_cached(final(self).entries@, api_base_url@, token@, now),
            forall|k: Seq<char>| k != api_base_url@ ==> #[trigger] entry_of(final(self).entries@, k) == entry_of(old(self).entries@, k),
    {
        let t = crate::chars::string_from_chars(crate::text::chars_of(token).as_slice());
        let e = HtmlAppGuestTokenCacheEntry {
            token: Some(t),
            token_expires_at: Some(u64_sat_add(now, HTML_APP_GUEST_TOKEN_TTL_SECONDS)),
            backoff_until: None,
            failure_count: 0,
        };
        self.put(api_base_url, e);
    }

    /// Forgets the token of the API, keeping its back-off and failures.
    pub fn invalidate_html_app_guest_token(&mut self, api_base_url: &str)
        requires
            old(self).wf(),
        ensures
            final(self).wf(),
            match entry_of(old(self).entries@, api_base_url@) {
                Some(e) => entries_after(old(self).entries@, final(self).entries@, api_base_url@,
                    HtmlAppGuestTokenCacheEntry { token: None, token_expires_at: None, ..e }),
                None => final(self).entries@ == old(self).entries@,
            },
    {
        match self.find(api_base_url) {
            Some(i) => {
                let old_entry = &self.entries[i].1;
                let e = HtmlAppGuestTokenCacheEntry {
                    token: None,
                    token_expires_at: None,
                    backoff_until: old_entry.backoff_until,
                    failure_count: old_entry.failure_count,
                };
                self.put(api_base_url, e);
            },
            None => {},
        }
    }

    /// Notes a failure of the API at `now`: one more failure, a back-off from `now` that
    /// doubles with each failure up to the cap, and the token dropped after the second.
    pub fn record_html_app_api_failure_at(&mut self, api_base_url: &str, now: u64)
        requires
            old(self).wf(),
        ensures
            final(self).wf(),
            ({
                let e = entry_or_blank(old(self).entries@, api_base_url@);
                let failures = (if e.failure_count + 1 > u32::MAX { u32::MAX as int } else { e.failure_count + 1 }) as u32;
                entries_after(old(self).entries@, final(self).entries@, api_base_url@, HtmlAppGuestTokenCacheEntry {
                    token: if failures > 2 { None } else { e.token },
                    token_expires_at: if failures > 2 { None } else { e.token_expires_at },
                    backoff_until: Some(sat_add(now as int, backoff_seconds_spec(failures)) as u64),
                    failure_count: failures,
                })
            }),
    {
        let e = match self.find(api_base_url) {
            Some(i) => copy_entry(&self.entries[i].1),
            None => HtmlAppGuestTokenCacheEntry { token: None, token_expires_at: None, backoff_until: None, failure_count: 0 },
        };
        let failures = crate::arith::u32_sat_add(e.failure_count, 1);
        let exponent: u32 = if failures <= 1 { 0 } else if failures - 1 > 4 { 4 } else { failures - 1 };
        let pow: u64 = if exponent == 0 { 1 } else if exponent == 1 { 2 } else if exponent == 2 { 4 } else if exponent == 3 { 8 } else { 16 };
        let raw = HTML_APP_API_BACKOFF_BASE_SECONDS * pow;
        let backoff = if raw > HTML_APP_API_BACKOFF_MAX_SECONDS { HTML_APP_API_BACKOFF_MAX_SECONDS } else { raw };
        let drop_token = failures > 2;
        let next = HtmlAppGuestTokenCacheEntry {
            token: if drop_token { None } else { e.token },
            token_expires_at: if drop_token { None } else { e.token_expires_at },
            backoff_until: Some(u64_sat_add(now, backoff)),
            failure_count: failures,
        };
        self.put(api_base_url, next);
    }
}

} // verus!
