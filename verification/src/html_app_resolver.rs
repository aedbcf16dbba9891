//! The decisions of the app resolver, one step per reply: where the configuration comes from,
//! when a guest token is asked for again (once, after a cached token was refused), which
//! replies end the resolution with which error, and what a good reply resolves to.
//! The caller performs each action and hands back what came of it.

use vstd::prelude::*;
use crate::chars::{trim_chars, trim_ws, TrimClass};
use crate::html::HtmlAppApiHint;
use crate::html_app::{resolved_view, select_download_spec, select_html_app_direct_download, HtmlAppContentData};
use crate::html_links::{app_config_spec, parse_html_app_api_config};
use crate::model::opt_text;
use crate::probe_flow::HtmlApiResolvedDownload;
use crate::text::{chars_of, decimal_spec};

verus! {

/// Where the app API lives and the seed of its website tokens.
#[derive(Clone, Debug)]
pub struct HtmlAppApiConfig {
    pub api_base_url: String,
    pub website_token_seed: String,
}

/// How far a resolution has come.
pub enum AppApiPhase {
    Start,
    AwaitConfig { config_url: String },
    AwaitGuestToken { config: HtmlAppApiConfig, retried: bool },
    AwaitContent { config: HtmlAppApiConfig, guest_token: String, token_from_cache: bool, retried: bool },
    Done,
}

/// What came of the last action. A reply's body or payload is only read when its status is
/// a success; a request that failed, or a body or payload that could not be read, is
/// `Failed` with its message.
pub enum AppApiEvent {
    Begin,
    ConfigFetched { http_status: u16, body: String },
    GuestTokenCached { token: String },
    GuestAccountFetched { http_status: u16, payload_status: String, token: Option<String> },
    ContentFetched { http_status: u16, payload_status: String, content: HtmlAppContentData },
    Failed { message: String },
}

/// What to do next. `ObtainGuestToken` drops the cached token first when `discard_cached`,
/// then answers from the cache or asks the API for a guest account; `RequestContent` caches
/// the token first when `cache_token`; `Finish` ends the resolution, noting a failure of the
/// API at `failure_for` when there is one.
pub enum AppApiAction {
    FetchConfig { config_url: String },
    ObtainGuestToken { api_base_url: String, discard_cached: bool },
    RequestContent {
        api_base_url: String,
        content_id: String,
        guest_token: String,
        website_token_seed: String,
        cache_token: bool,
    },
    Finish { outcome: Result<Option<HtmlApiResolvedDownload>, String>, failure_for: Option<String> },
}

pub open spec fn http_success(status: u16) -> bool {
    200 <= status <= 299
}

pub open spec fn config_view(c: HtmlAppApiConfig) -> (Seq<char>, Seq<char>) {
    (c.api_base_url@, c.website_token_seed@)
}

pub open spec fn outcome_view(o: Result<Option<HtmlApiResolvedDownload>, String>)
    -> Result<Option<(Seq<char>, Option<Seq<char>>, Option<Seq<char>>)>, Seq<char>> {
    match o {
        Ok(r) => Ok(resolved_view(r)),
        Err(e) => Err(e@),
    }
}

/// The events each phase waits for.
pub open spec fn event_fits(phase: AppApiPhase, event: AppApiEvent) -> bool {
    match phase {
        AppApiPhase::Start => event is Begin,
        AppApiPhase::AwaitConfig { .. } => event is ConfigFetched || event is Failed,
        AppApiPhase::AwaitGuestToken { .. } => event is GuestTokenCached || event is GuestAccountFetched || event is Failed,
        AppApiPhase::AwaitContent { .. } => event is ContentFetched || event is Failed,
        AppApiPhase::Done => false,
    }
}

/// Steps left at most before the resolution is done.
pub open spec fn phase_rank(phase: AppApiPhase) -> nat {
    match phase {
        AppApiPhase::Start => 6,
        AppApiPhase::AwaitConfig { .. } => 5,
        AppApiPhase::AwaitGuestToken { retried, .. } => if retried { 2 } else { 4 },
        AppApiPhase::AwaitContent { retried, .. } => if retried { 1 } else { 3 },
        AppApiPhase::Done => 0,
    }
}

pub open spec fn finishes(next: AppApiPhase, action: AppApiAction,
    outcome: Result<Option<(Seq<char>, Option<Seq<char>>, Option<Seq<char>>)>, Seq<char>>,
    failure_for: Option<Seq<char>>) -> bool {
    &&& next is Done
    &&& action matches AppApiAction::Finish { outcome: o, failure_for: f }
    &&& outcome_view(o) == outcome
    &&& opt_text(f) == failure_for
}

pub open spec fn asks_token(next: AppApiPhase, action: AppApiAction, config: (Seq<char>, Seq<char>),
    retried: bool, discard: bool) -> bool {
    &&& next matches AppApiPhase::AwaitGuestToken { config: c, retried: r }
    &&& config_view(c) == config
    &&& r == retried
    &&& action matches AppApiAction::ObtainGuestToken { api_base_url, discard_cached }
    &&& api_base_url@ == config.0
    &&& discard_cached == discard
}

pub open spec fn asks_content(hint: HtmlAppApiHint, next: AppApiPhase, action: AppApiAction,
    config: (Seq<char>, Seq<char>), token: Seq<char>, from_cache: bool, retried: bool) -> bool {
    &&& next matches AppApiPhase::AwaitContent { config: c, guest_token, token_from_cache, retried: r }
    &&& config_view(c) == config
    &&& guest_token@ == token
    &&& token_from_cache == from_cache
    &&& r == retried
    &&& action matches AppApiAction::RequestContent { api_base_url, content_id, guest_token: g, website_token_seed, cache_token }
    &&& api_base_url@ == config.0
    &&& content_id@ == hint.content_id@
    &&& g@ == token
    &&& website_token_seed@ == config.1
    &&& cache_token == !from_cache
}

pub open spec fn config_http_error(status: u16) -> Seq<char> {
    "Wrapper config request returned HTTP "@ + decimal_spec(status as nat) + "."@
}

pub open spec fn guest_http_error(status: u16) -> Seq<char> {
    "Wrapper app API guest account request returned HTTP "@ + decimal_spec(status as nat) + "."@
}

pub open spec fn guest_status_error(status: Seq<char>) -> Seq<char> {
    "Wrapper app API guest account request returned "@ + status + "."@
}

pub open spec fn content_http_error(status: u16) -> Seq<char> {
    "Wrapper app API content request returned HTTP "@ + decimal_spec(status as nat) + "."@
}

pub open spec fn content_status_error(status: Seq<char>) -> Seq<char> {
    "Wrapper app API content request returned "@ + status + "."@
}

/// One step of the resolution: the next phase and action for an event.
pub open spec fn app_api_step_spec(hint: HtmlAppApiHint, phase: AppApiPhase, event: AppApiEvent,
    next: AppApiPhase, action: AppApiAction) -> bool {
    match event {
        AppApiEvent::Failed { message } => finishes(next, action, Err(message@), None),
        AppApiEvent::Begin => match (hint.inline_api_base_url, hint.inline_website_token_seed) {
            (Some(a), Some(s)) => asks_token(next, action, (a@, s@), false, false),
            _ => match hint.config_url {
                Some(u) => {
                    &&& next matches AppApiPhase::AwaitConfig { config_url } && config_url@ == u@
                    &&& action matches AppApiAction::FetchConfig { config_url: c } && c@ == u@
                },
                None => finishes(next, action, Ok(None), None),
            },
        },
        AppApiEvent::ConfigFetched { http_status, body } => match phase {
            AppApiPhase::AwaitConfig { config_url } =>
                if !http_success(http_status) {
                    finishes(next, action, Err(config_http_error(http_status)), Some(config_url@))
                } else {
                    match app_config_spec(config_url@, body@) {
                        Some(c) => asks_token(next, action, c, false, false),
                        None => finishes(next, action,
                            Err("Wrapper config did not expose a usable app API mapping."@), None),
                    }
                },
            _ => false,
        },
        AppApiEvent::GuestTokenCached { token } => match phase {
            AppApiPhase::AwaitGuestToken { config, retried } =>
                asks_content(hint, next, action, config_view(config), token@, true, retried),
            _ => false,
        },
        AppApiEvent::GuestAccountFetched { http_status, payload_status, token } => match phase {
            AppApiPhase::AwaitGuestToken { config, retried } =>
                if !http_success(http_status) {
                    finishes(next, action, Err(guest_http_error(http_status)), Some(config.api_base_url@))
                } else if payload_status@ != "ok"@ {
                    finishes(next, action, Err(guest_status_error(payload_status@)), Some(config.api_base_url@))
                } else {
                    match token {
                        Some(t) if trim_ws(t@).len() > 0 =>
                            asks_content(hint, next, action, config_view(config), trim_ws(t@), false, retried),
                        _ => finishes(next, action,
                            Err("Wrapper app API guest account request did not return a token."@),
                            Some(config.api_base_url@)),
                    }
                },
            _ => false,
        },
        AppApiEvent::ContentFetched { http_status, payload_status, content } => match phase {
            AppApiPhase::AwaitContent { config, guest_token, token_from_cache, retried } =>
                if token_from_cache && !retried && (http_status == 401 || http_status == 403) {
                    asks_token(next, action, config_view(config), true, true)
                } else if !http_success(http_status) {
                    finishes(next, action, Err(content_http_error(http_status)), Some(config.api_base_url@))
                } else if payload_status@ != "ok"@ {
                    finishes(next, action, Err(content_status_error(payload_status@)), None)
                } else {
                    finishes(next, action, Ok(select_download_spec(content, "accountToken="@ + guest_token@)), None)
                },
            _ => false,
        },
    }
}

fn http_error(prefix: &str, status: u16) -> (r: String)
    ensures
        r@ == prefix@ + decimal_spec(status as nat) + "."@,
{
    let mut out = String::new();
    out.append(prefix);
    let digits = crate::text::decimal_string(status as u64);
    out.append(digits.as_str());
    out.append(".");
    assert(out@ =~= prefix@ + decimal_spec(status as nat) + "."@);
    out
}

fn status_error(prefix: &str, status: &str) -> (r: String)
    ensures
        r@ == prefix@ + status@ + "."@,
{
    let mut out = String::new();
    out.append(prefix);
    out.append(status);
    out.append(".");
    assert(out@ =~= prefix@ + status@ + "."@);
    out
}

fn text_of(lit: &str) -> (r: String)
    ensures
        r@ == lit@,
{
    crate::chars::string_from_chars(chars_of(lit).as_slice())
}

fn is_ok_text(s: &str) -> (b: bool)
    ensures
        b == (s@ == "ok"@),
{
    crate::chars::chars_equal(chars_of(s).as_slice(), chars_of("ok").as_slice())
}

fn finish(outcome: Result<Option<HtmlApiResolvedDownload>, String>, failure_for: Option<String>) -> (r: (AppApiPhase, AppApiAction))
    ensures
        r.0 is Done,
        r.1 == (AppApiAction::Finish { outcome, failure_for }),
{
    (AppApiPhase::Done, AppApiAction::Finish { outcome, failure_for })
}

fn ask_token(config: HtmlAppApiConfig, retried: bool, discard_cached: bool) -> (r: (AppApiPhase, AppApiAction))
    ensures
        asks_token(r.0, r.1, config_view(config), retried, discard_cached),
{
    let api_base_url = config.api_base_url.clone();
    (AppApiPhase::AwaitGuestToken { config, retried }, AppApiAction::ObtainGuestToken { api_base_url, discard_cached })
}

fn ask_content(hint: &HtmlAppApiHint, config: HtmlAppApiConfig, guest_token: String, token_from_cache: bool, retried: bool)
    -> (r: (AppApiPhase, AppApiAction))
    ensures
        asks_content(*hint, r.0, r.1, config_view(config), guest_token@, token_from_cache, retried),
{
    let action = AppApiAction::RequestContent {
        api_base_url: config.api_base_url.clone(),
        content_id: hint.content_id.clone(),
        guest_token: guest_token.clone(),
        website_token_seed: config.website_token_seed.clone(),
        cache_token: !token_from_cache,
    };
    (AppApiPhase::AwaitContent { config, guest_token, token_from_cache, retried }, action)
}

/// One step of the app resolver: the next phase and the action to perform for what came of
/// the last one. Each step leads closer to the end; a refused cached token is replaced once.
pub fn html_app_api_step(hint: &HtmlAppApiHint, phase: AppApiPhase, event: AppApiEvent) -> (r: (AppApiPhase, AppApiAction))
    requires
        event_fits(phase, event),
    ensures
        app_api_step_spec(*hint, phase, event, r.0, r.1),
        phase_rank(r.0) < phase_rank(phase),
{
    match event {
        AppApiEvent::Failed { message } => finish(Err(message), None),
        AppApiEvent::Begin => {
            match (&hint.inline_api_base_url, &hint.inline_website_token_seed) {
                (Some(a), Some(s)) => {
                    return ask_token(HtmlAppApiConfig { api_base_url: a.clone(), website_token_seed: s.clone() }, false, false);
                },
                _ => {},
            }
            match &hint.config_url {
                Some(u) => (AppApiPhase::AwaitConfig { config_url: u.clone() }, AppApiAction::FetchConfig { config_url: u.clone() }),
                None => finish(Ok(None), None),
            }
        },
        AppApiEvent::ConfigFetched { http_status, body } => {
            let config_url = match phase {
                AppApiPhase::AwaitConfig { config_url } => config_url,
                _ => { proof { assert(false); } return finish(Ok(None), None); },
            };
            if !(200 <= http_status && http_status <= 299) {
                let e = http_error("Wrapper config request returned HTTP ", http_status);
                return finish(Err(e), Some(config_url));
            }
            match parse_html_app_api_config(config_url.as_str(), body.as_str()) {
                Some((api_base_url, website_token_seed)) =>
                    ask_token(HtmlAppApiConfig { api_base_url, website_token_seed }, false, false),
                None => finish(Err(text_of("Wrapper config did not expose a usable app API mapping.")), None),
            }
        },
        AppApiEvent::GuestTokenCached { token } => {
            match phase {
                AppApiPhase::AwaitGuestToken { config, retried } => ask_content(hint, config, token, true, retried),
                _ => { proof { assert(false); } finish(Ok(None), None) },
            }
        },
        AppApiEvent::GuestAccountFetched { http_status, payload_status, token } => {
            let (config, retried) = match phase {
                AppApiPhase::AwaitGuestToken { config, retried } => (config, retried),
                _ => { proof { assert(false); } return finish(Ok(None), None); },
            };
            if !(200 <= http_status && http_status <= 299) {
                let e = http_error("Wrapper app API guest account request returned HTTP ", http_status);
                return finish(Err(e), Some(config.api_base_url));
            }
            if !is_ok_text(payload_status.as_str()) {
                let e = status_error("Wrapper app API guest account request returned ", payload_status.as_str());
                return finish(Err(e), Some(config.api_base_url));
            }
            let trimmed: Option<Vec<char>> = match &token {
                Some(t) => {
                    let v = trim_chars(chars_of(t.as_str()).as_slice(), TrimClass::WhiteSpace);
                    if v.len() > 0 { Some(v) } else { None }
                },
                None => None,
            };
            match trimmed {
                Some(v) => {
                    let t = crate::chars::string_from_chars(v.as_slice());
                    ask_content(hint, config, t, false, retried)
                },
                None => finish(Err(text_of("Wrapper app API guest account request did not return a token.")),
                    Some(config.api_base_url)),
            }
        },
        AppApiEvent::ContentFetched { http_status, payload_status, content } => {
            let (config, guest_token, token_from_cache, retried) = match phase {
                AppApiPhase::AwaitContent { config, guest_token, token_from_cache, retried } =>
                    (config, guest_token, token_from_cache, retried),
                _ => { proof { assert(false); } return finish(Ok(None), None); },
            };
            if token_from_cache && !retried && (http_status == 401 || http_status == 403) {
                return ask_token(config, true, true);
            }
            if !(200 <= http_status && http_status <= 299) {
                let e = http_error("Wrapper app API content request returned HTTP ", http_status);
                return finish(Err(e), Some(config.api_base_url));
            }
            if !is_ok_text(payload_status.as_str()) {
                let e = status_error("Wrapper app API content request returned ", payload_status.as_str());
                return finish(Err(e), None);
            }
            let mut cookie = String::new();
            cookie.append("accountToken=");
            cookie.append(guest_token.as_str());
            assert(cookie@ =~= "accountToken="@ + guest_token@);
            finish(Ok(select_html_app_direct_download(&content, cookie.as_str())), None)
        },
    }
}

} // verus!
