//! Decisions of the application updater: release versions, skipped builds, the GitHub
//! fallback when the updater manifest cannot be read, and the first-start health check.

use vstd::prelude::*;
use vstd::string::StringSliceAdditionalSpecFns;
use crate::chars::{slice_chars, string_from_chars, trim_chars, trim_ws, TrimClass};
use crate::model::{opt_text, AppUpdateChannel, EngineSettings, TrafficMode};
use crate::scopes::copy_opt_string;
use crate::text::{chars_of, decimal_spec, push_decimal};

verus! {

/// A version the updater offers.
#[derive(Clone, Debug)]
pub struct AppUpdateInfo {
    pub version: String,
    pub current_version: String,
    pub channel: AppUpdateChannel,
    pub notes: Option<String>,
}

#[derive(Clone, Copy, Debug, PartialEq, Eq, Structural)]
pub enum AppUpdateCheckStatus {
    Available,
    UpToDate,
    Unavailable,
}

/// The answer to an update check.
#[derive(Clone, Debug)]
pub struct AppUpdateCheckResult {
    pub status: AppUpdateCheckStatus,
    pub info: Option<AppUpdateInfo>,
    pub message: Option<String>,
}

#[derive(Clone, Copy, Debug, PartialEq, Eq, Structural)]
pub enum AppUpdateStartupHealthStatus {
    Pending,
    Healthy,
    RestoredSettings,
    RollbackTriggered,
    Failed,
}

/// What the first start after an update found.
#[derive(Clone, Debug)]
pub struct AppUpdateStartupHealth {
    pub status: AppUpdateStartupHealthStatus,
    pub channel: AppUpdateChannel,
    pub from_version: String,
    pub target_version: String,
    pub observed_version: String,
    pub checked_at: i64,
    pub message: Option<String>,
}

/// The outcome of the first-start health check, and what it did to the settings.
#[derive(Clone, Debug)]
pub struct StartupHealthEvaluation {
    pub health: Option<AppUpdateStartupHealth>,
    pub settings_restored: bool,
    pub settings_changed: bool,
}

impl Default for StartupHealthEvaluation {
    fn default() -> (r: Self)
        ensures
            r.health is None,
            !r.settings_restored,
            !r.settings_changed,
    {
        StartupHealthEvaluation { health: None, settings_restored: false, settings_changed: false }
    }
}

#[derive(Clone, Copy, Debug, PartialEq, Eq, Structural)]
pub enum PendingAppUpdatePhase {
    Downloaded,
    AwaitingValidation,
}

/// What was recorded before restarting into an installed update.
#[derive(Clone, Debug)]
pub struct PendingAppUpdateTransition {
    pub phase: PendingAppUpdatePhase,
    pub channel: AppUpdateChannel,
    pub from_version: String,
    pub target_version: String,
    pub recorded_at: i64,
    pub notes: Option<String>,
    pub settings: EngineSettings,
}

/// The settings as values.
pub open spec fn settings_view(s: EngineSettings) -> (bool, TrafficMode, u32, u64, u32, Option<u64>, Option<Seq<char>>, AppUpdateChannel, u32, u32, u32) {
    (
        s.experimental_uncapped_mode,
        s.traffic_mode,
        s.target_chunk_time_seconds,
        s.min_segment_size_bytes,
        s.max_active_downloads,
        s.speed_limit_bytes_per_second,
        opt_text(s.skipped_update_version),
        s.update_channel,
        s.late_segment_ratio_percent,
        s.segment_checkpoint_min_interval_ms,
        s.segment_checkpoint_max_interval_ms,
    )
}

/// Whether two settings hold the same values.
pub fn same_settings(a: &EngineSettings, b: &EngineSettings) -> (r: bool)
    ensures
        r == (settings_view(*a) == settings_view(*b)),
{
    let skipped_equal = match (&a.skipped_update_version, &b.skipped_update_version) {
        (Some(x), Some(y)) => crate::text::str_equal(x.as_str(), y.as_str()),
        (None, None) => true,
        _ => false,
    };
    a.experimental_uncapped_mode == b.experimental_uncapped_mode && a.traffic_mode == b.traffic_mode
        && a.target_chunk_time_seconds == b.target_chunk_time_seconds && a.min_segment_size_bytes == b.min_segment_size_bytes
        && a.max_active_downloads == b.max_active_downloads && a.speed_limit_bytes_per_second == b.speed_limit_bytes_per_second
        && skipped_equal && a.update_channel == b.update_channel && a.late_segment_ratio_percent == b.late_segment_ratio_percent
        && a.segment_checkpoint_min_interval_ms == b.segment_checkpoint_min_interval_ms
        && a.segment_checkpoint_max_interval_ms == b.segment_checkpoint_max_interval_ms
}

/// A copy of the settings.
pub fn copy_settings(s: &EngineSettings) -> (r: EngineSettings)
    ensures
        r == *s,
{
    EngineSettings {
        experimental_uncapped_mode: s.experimental_uncapped_mode,
        traffic_mode: s.traffic_mode,
        target_chunk_time_seconds: s.target_chunk_time_seconds,
        min_segment_size_bytes: s.min_segment_size_bytes,
        max_active_downloads: s.max_active_downloads,
        speed_limit_bytes_per_second: s.speed_limit_bytes_per_second,
        skipped_update_version: copy_opt_string(&s.skipped_update_version),
        update_channel: s.update_channel,
        late_segment_ratio_percent: s.late_segment_ratio_percent,
        segment_checkpoint_min_interval_ms: s.segment_checkpoint_min_interval_ms,
        segment_checkpoint_max_interval_ms: s.segment_checkpoint_max_interval_ms,
    }
}

/// The version a device skips on a channel.
pub fn skipped_version_for_channel<'a>(settings: &'a EngineSettings, channel: &AppUpdateChannel) -> (r: Option<&'a str>)
    ensures
        match r {
            Some(v) => opt_text(settings.skipped_update_version) == Some(v@),
            None => settings.skipped_update_version is None,
        },
{
    match &settings.skipped_update_version {
        Some(v) => Some(v.as_str()),
        None => None,
    }
}

/// Records the version a device skips on a channel.
pub fn set_skipped_version_for_channel(settings: &mut EngineSettings, channel: &AppUpdateChannel, version: Option<String>)
    ensures
        *final(settings) == (EngineSettings { skipped_update_version: version, ..*old(settings) }),
{
    settings.skipped_update_version = version;
}

/// A text with leading `v` and `V` removed.
pub open spec fn strip_leading_v(s: Seq<char>) -> Seq<char>
    decreases s.len(),
{
    if s.len() > 0 && (s[0] == 'v' || s[0] == 'V') { strip_leading_v(s.subrange(1, s.len() as int)) } else { s }
}

/// A release tag as a bare version: trimmed, without leading `v`.
pub open spec fn normalized_version(raw: Seq<char>) -> Seq<char> {
    strip_leading_v(trim_ws(raw))
}

pub fn normalize_release_version(raw: &str) -> (r: String)
    ensures
        r@ == normalized_version(raw@),
{
    let all = chars_of(raw);
    let t = trim_chars(all.as_slice(), TrimClass::WhiteSpace);
    let mut i: usize = 0;
    assert(t@.subrange(0, t@.len() as int) =~= t@);
    while i < t.len() && (t[i] == 'v' || t[i] == 'V')
        invariant
            i <= t@.len(),
            strip_leading_v(t@) == strip_leading_v(t@.subrange(i as int, t@.len() as int)),
        decreases t@.len() - i,
    {
        assert(t@.subrange(i as int, t@.len() as int).subrange(1, t@.len() - i) =~= t@.subrange(i + 1, t@.len() as int));
        i = i + 1;
    }
    let rest = slice_chars(t.as_slice(), i, t.len());
    string_from_chars(rest.as_slice())
}

/// Whether the semver crate parses a text as a version.
pub uninterp spec fn semver_accepts(text: Seq<char>) -> bool;

/// Whether the version parsed from `a` orders after the one parsed from `b` in the semver
/// crate's order.
pub uninterp spec fn semver_greater(a: Seq<char>, b: Seq<char>) -> bool;

/// Whether the version parsed from a text has no pre-release part.
pub uninterp spec fn semver_release(text: Seq<char>) -> bool;

/// `semver::Version::parse`: whether it succeeds.
#[verifier::external_body]
fn semver_parses(text: &str) -> (r: bool)
    ensures
        r == semver_accepts(text@),
{
    semver::Version::parse(text).is_ok()
}

/// `semver::Version::parse` of both texts, then `>` of the two versions.
#[verifier::external_body]
fn semver_is_greater(a: &str, b: &str) -> (r: bool)
    requires
        semver_accepts(a@),
        semver_accepts(b@),
    ensures
        r == semver_greater(a@, b@),
{
    match (semver::Version::parse(a), semver::Version::parse(b)) {
        (Ok(x), Ok(y)) => x > y,
        _ => false,
    }
}

/// `semver::Version::parse`, then whether the version's `pre` is empty.
#[verifier::external_body]
fn semver_is_release(text: &str) -> (r: bool)
    requires
        semver_accepts(text@),
    ensures
        r == semver_release(text@),
{
    match semver::Version::parse(text) {
        Ok(v) => v.pre.is_empty(),
        Err(_) => false,
    }
}

/// A candidate is newer when both parse and it orders after the current version, or, when
/// either does not parse, when their normalized texts differ.
pub open spec fn is_newer_spec(candidate: Seq<char>, current: Seq<char>) -> bool {
    let c = normalized_version(candidate);
    let cur = normalized_version(current);
    if semver_accepts(c) && semver_accepts(cur) { semver_greater(c, cur) } else { c != cur }
}

pub fn is_newer_version(candidate: &str, current: &str) -> (r: bool)
    ensures
        r == is_newer_spec(candidate@, current@),
{
    let c = normalize_release_version(candidate);
    let cur = normalize_release_version(current);
    if semver_parses(c.as_str()) && semver_parses(cur.as_str()) {
        semver_is_greater(c.as_str(), cur.as_str())
    } else {
        !crate::text::str_equal(c.as_str(), cur.as_str())
    }
}

/// The release tag kept by a scan of `tags[..n]`: among tags that parse as versions without
/// a pre-release part, the last of the greatest.
pub open spec fn highest_tag_upto(tags: Seq<Seq<char>>, n: int) -> Option<Seq<char>>
    decreases n,
{
    if n <= 0 {
        None
    } else {
        let best = highest_tag_upto(tags, n - 1);
        let v = normalized_version(tags[n - 1]);
        if !semver_accepts(v) || !semver_release(v) {
            best
        } else {
            match best {
                Some(b) => if semver_greater(normalized_version(b), v) { Some(b) } else { Some(tags[n - 1]) },
                None => Some(tags[n - 1]),
            }
        }
    }
}

pub proof fn lemma_highest_tag_parses(tags: Seq<Seq<char>>, n: int)
    ensures
        highest_tag_upto(tags, n) matches Some(b) ==> semver_accepts(normalized_version(b)),
    decreases n,
{
    if n > 0 {
        lemma_highest_tag_parses(tags, n - 1);
    }
}

/// The greatest release tag, as the tag reads.
pub fn highest_version_tag_name(tags: Vec<String>) -> (r: Option<String>)
    ensures
        opt_text(r) == highest_tag_upto(crate::filename::texts_view(tags), tags@.len() as int),
{
    let ghost names = crate::filename::texts_view(tags);
    let mut best: Option<String> = None;
    let mut best_version: String = String::new();
    let mut i: usize = 0;
    while i < tags.len()
        invariant
            i <= tags@.len(),
            names == crate::filename::texts_view(tags),
            opt_text(best) == highest_tag_upto(names, i as int),
            best is Some ==> best_version@ == normalized_version(best->0@),
        decreases tags@.len() - i,
    {
        let v = normalize_release_version(tags[i].as_str());
        assert(names[i as int] == tags@[i as int]@);
        if semver_parses(v.as_str()) && semver_is_release(v.as_str()) {
            let keep = match &best {
                Some(_) => {
                    proof { lemma_highest_tag_parses(names, i as int); }
                    semver_is_greater(best_version.as_str(), v.as_str())
                },
                None => false,
            };
            if !keep {
                best = Some(tags[i].clone());
                best_version = v;
            }
        }
        i = i + 1;
    }
    best
}

/// A release as the GitHub API describes it.
#[derive(Clone, Debug)]
pub struct GithubRelease {
    pub tag_name: String,
    pub body: Option<String>,
    pub html_url: Option<String>,
    pub asset_names: Vec<String>,
}

/// Whether a release has an asset named `manifest_name`, ignoring ASCII case.
pub open spec fn has_manifest_spec(assets: Seq<String>, manifest_name: &str) -> bool {
    exists|i: int| 0 <= i < assets.len()
        && crate::text::lower_seq(#[trigger] vstd::utf8::encode_utf8(assets[i]@)) == crate::text::lower_seq(manifest_name.spec_bytes())
}

pub fn release_has_manifest(release: &GithubRelease, manifest_name: &str) -> (r: bool)
    ensures
        r == has_manifest_spec(release.asset_names@, manifest_name),
{
    let mut i: usize = 0;
    while i < release.asset_names.len()
        invariant
            i <= release.asset_names@.len(),
            forall|j: int| 0 <= j < i ==> crate::text::lower_seq(#[trigger] vstd::utf8::encode_utf8(release.asset_names@[j]@))
                != crate::text::lower_seq(manifest_name.spec_bytes()),
        decreases release.asset_names@.len() - i,
    {
        if crate::text::str_eq_ci(release.asset_names[i].as_str(), manifest_name) {
            return true;
        }
        i = i + 1;
    }
    false
}

/// Whether an updater error is worth answering from the GitHub release pages: a missing
/// release, or a message about the release manifest or a missing resource.
pub open spec fn release_fallback_spec(release_not_found: bool, message: Seq<u8>) -> bool {
    release_not_found
        || crate::text::contains_ci(message, "valid release json".spec_bytes())
        || crate::text::contains_ci(message, "latest.json".spec_bytes())
        || crate::text::contains_ci(message, "404".spec_bytes())
        || crate::text::contains_ci(message, "not found".spec_bytes())
}

pub fn should_try_release_fallback(release_not_found: bool, message: &str) -> (r: bool)
    ensures
        r == release_fallback_spec(release_not_found, message.spec_bytes()),
{
    if release_not_found {
        return true;
    }
    crate::text::str_contains_ci(message, "valid release json") || crate::text::str_contains_ci(message, "latest.json")
        || crate::text::str_contains_ci(message, "404") || crate::text::str_contains_ci(message, "not found")
}

/// A wait in the largest whole unit below it, rounded up: seconds (at least one), minutes or hours.
pub open spec fn wait_duration_spec(seconds: u64) -> Seq<char> {
    if seconds < 60 {
        decimal_spec(if seconds < 1 { 1nat } else { seconds as nat }) + "s"@
    } else if seconds < 3600 {
        decimal_spec(crate::arith::ceil_div(seconds as int, 60) as nat) + "m"@
    } else {
        decimal_spec(crate::arith::ceil_div(seconds as int, 3600) as nat) + "h"@
    }
}

pub fn format_wait_duration(seconds: u64) -> (r: String)
    ensures
        r@ == wait_duration_spec(seconds),
{
    let mut out = String::new();
    if seconds < 60 {
        push_decimal(&mut out, if seconds < 1 { 1 } else { seconds });
        out.append("s");
    } else if seconds < 3600 {
        push_decimal(&mut out, crate::arith::u64_div_ceil(seconds, 60));
        out.append("m");
    } else {
        push_decimal(&mut out, crate::arith::u64_div_ceil(seconds, 3600));
        out.append("h");
    }
    out
}

pub const GITHUB_RELEASES_PAGE: &'static str = "https://github.com/vamptux/Velocity-Download-Manager/releases";
pub const STABLE_UPDATE_MANIFEST_NAME: &'static str = "latest.json";

fn trimmed_u64(value: &str) -> (r: Option<u64>)
    ensures
        r == crate::http_helpers::parse_u64_spec(trim_ws(value@)),
{
    let all = chars_of(value);
    let t = trim_chars(all.as_slice(), TrimClass::WhiteSpace);
    crate::http_helpers::parse_u64(t.as_slice())
}

/// Seconds to wait: a `Retry-After` number, else the time left until the rate-limit reset
/// (none when the clock cannot be read).
pub open spec fn retry_wait_spec(retry_after: Option<Seq<char>>, reset_at: Option<Seq<char>>, now_secs: Option<u64>) -> Option<u64> {
    let direct = match retry_after {
        Some(v) => crate::http_helpers::parse_u64_spec(trim_ws(v)),
        None => None,
    };
    match direct {
        Some(v) => Some(v),
        None => match reset_at {
            Some(r) => match (crate::http_helpers::parse_u64_spec(trim_ws(r)), now_secs) {
                (Some(at), Some(now)) => Some(crate::arith::sat_sub(at as int, now as int) as u64),
                _ => None,
            },
            None => None,
        },
    }
}

/// The hint that tells how long GitHub asks to wait.
pub fn github_retry_hint(retry_after: Option<&str>, reset_at: Option<&str>, now_secs: Option<u64>) -> (r: Option<String>)
    ensures
        match retry_wait_spec(crate::filename::opt_str_text(retry_after), crate::filename::opt_str_text(reset_at), now_secs) {
            Some(w) => opt_text(r) == Some("Estimated wait: "@ + wait_duration_spec(w) + "."@),
            None => r is None,
        },
{
    let direct = match retry_after {
        Some(v) => trimmed_u64(v),
        None => None,
    };
    let wait = match direct {
        Some(v) => v,
        None => match reset_at {
            Some(r) => match (trimmed_u64(r), now_secs) {
                (Some(at), Some(now)) => crate::arith::u64_sat_sub(at, now),
                _ => { return None; },
            },
            None => { return None; },
        },
    };
    let mut out = String::new();
    out.append("Estimated wait: ");
    let w = format_wait_duration(wait);
    out.append(w.as_str());
    out.append(".");
    Some(out)
}

/// GitHub rate-limits with status 429, or with 403 and no requests remaining.
pub fn github_rate_limited(status: u16, remaining: Option<&str>) -> (r: bool)
    ensures
        r == (status == 429 || (status == 403 && crate::filename::opt_str_text(remaining) == Some("0"@))),
{
    proof { reveal_strlit("0"); }
    if status == 429 {
        return true;
    }
    match remaining {
        Some(v) => status == 403 && crate::text::str_equal(v, "0"),
        None => false,
    }
}

pub open spec fn rate_limit_message_spec(hint: Option<Seq<char>>) -> Seq<char> {
    "GitHub temporarily rate-limited updater fallback requests. Try again shortly or install manually from "@
        + GITHUB_RELEASES_PAGE@ + "."@ + match hint { Some(h) => " "@ + h, None => Seq::empty() }
}

pub fn github_rate_limit_message(hint: Option<String>) -> (r: String)
    ensures
        r@ == rate_limit_message_spec(opt_text(hint)),
{
    let mut out = String::new();
    out.append("GitHub temporarily rate-limited updater fallback requests. Try again shortly or install manually from ");
    out.append(GITHUB_RELEASES_PAGE);
    out.append(".");
    match hint {
        Some(h) => {
            out.append(" ");
            out.append(h.as_str());
        },
        None => {},
    }
    out
}

/// An update offer as values.
pub open spec fn info_view(i: AppUpdateInfo) -> (Seq<char>, Seq<char>, AppUpdateChannel, Option<Seq<char>>) {
    (i.version@, i.current_version@, i.channel, opt_text(i.notes))
}

pub open spec fn opt_info_view(i: Option<AppUpdateInfo>) -> Option<(Seq<char>, Seq<char>, AppUpdateChannel, Option<Seq<char>>)> {
    match i {
        Some(x) => Some(info_view(x)),
        None => None,
    }
}

/// The offer a release makes: its normalized tag and its notes.
pub fn update_info_from_release(release: &GithubRelease, channel: &AppUpdateChannel, current_version: &str) -> (r: AppUpdateInfo)
    ensures
        info_view(r) == (normalized_version(release.tag_name@), current_version@, *channel, opt_text(release.body)),
{
    AppUpdateInfo {
        version: normalize_release_version(release.tag_name.as_str()),
        current_version: current_version.to_owned(),
        channel: *channel,
        notes: copy_opt_string(&release.body),
    }
}

pub fn update_check_result(status: AppUpdateCheckStatus, info: Option<AppUpdateInfo>, message: Option<String>) -> (r: AppUpdateCheckResult)
    ensures
        r == (AppUpdateCheckResult { status, info, message }),
{
    AppUpdateCheckResult { status, info, message }
}

/// What an update check settles on.
#[derive(Clone, Debug)]
pub enum ResolvedAppUpdate {
    Available { info: AppUpdateInfo },
    UpToDate { message: String },
    Unavailable { info: Option<AppUpdateInfo>, message: String },
}

/// The answer an update check gives for a resolution.
pub fn check_result_from_resolution(resolved: ResolvedAppUpdate) -> (r: AppUpdateCheckResult)
    ensures
        match resolved {
            ResolvedAppUpdate::Available { info } => r == (AppUpdateCheckResult { status: AppUpdateCheckStatus::Available, info: Some(info), message: None }),
            ResolvedAppUpdate::UpToDate { message } => r == (AppUpdateCheckResult { status: AppUpdateCheckStatus::UpToDate, info: None, message: Some(message) }),
            ResolvedAppUpdate::Unavailable { info, message } => r == (AppUpdateCheckResult { status: AppUpdateCheckStatus::Unavailable, info, message: Some(message) }),
        },
{
    match resolved {
        ResolvedAppUpdate::Available { info } => update_check_result(AppUpdateCheckStatus::Available, Some(info), None),
        ResolvedAppUpdate::UpToDate { message } => update_check_result(AppUpdateCheckStatus::UpToDate, None, Some(message)),
        ResolvedAppUpdate::Unavailable { info, message } => update_check_result(AppUpdateCheckStatus::Unavailable, info, Some(message)),
    }
}

pub open spec fn skipped_message(version: Seq<char>) -> Seq<char> {
    "Version "@ + version + " is currently skipped on this device until a newer release appears."@
}

fn skipped_text(version: &str) -> (r: String)
    ensures
        r@ == skipped_message(version@),
{
    let mut out = String::new();
    out.append("Version ");
    out.append(version);
    out.append(" is currently skipped on this device until a newer release appears.");
    out
}

pub open spec fn is_skipped(skipped: Option<&str>, version: Seq<char>) -> bool {
    match skipped {
        Some(v) => v@ == version,
        None => false,
    }
}

fn skip_matches(skipped: Option<&str>, version: &str) -> (r: bool)
    ensures
        r == is_skipped(skipped, version@),
{
    match skipped {
        Some(v) => crate::text::str_equal(v, version),
        None => false,
    }
}

/// The answer for an offer the updater found: up to date when the device skips that version.
pub fn check_result_for_update(info: AppUpdateInfo, skipped_version: Option<&str>) -> (r: AppUpdateCheckResult)
    ensures
        if is_skipped(skipped_version, info.version@) {
            &&& r.status == AppUpdateCheckStatus::UpToDate
            &&& r.info is None
            &&& opt_text(r.message) == Some(skipped_message(info.version@))
        } else {
            r == (AppUpdateCheckResult { status: AppUpdateCheckStatus::Available, info: Some(info), message: None })
        },
{
    if skip_matches(skipped_version, info.version.as_str()) {
        let message = skipped_text(info.version.as_str());
        return update_check_result(AppUpdateCheckStatus::UpToDate, None, Some(message));
    }
    update_check_result(AppUpdateCheckStatus::Available, Some(info), None)
}

/// An updater error as the fallback reads it.
#[derive(Clone, Debug)]
pub struct UpdaterErrorInfo {
    pub release_not_found: bool,
    pub message: String,
}

/// The GitHub fallback is tried without an updater error, or for one worth answering.
pub fn fallback_allowed(updater_error: Option<&UpdaterErrorInfo>) -> (r: bool)
    ensures
        r == match updater_error {
            Some(e) => release_fallback_spec(e.release_not_found, vstd::utf8::encode_utf8(e.message@)),
            None => true,
        },
{
    match updater_error {
        Some(e) => should_try_release_fallback(e.release_not_found, e.message.as_str()),
        None => true,
    }
}

pub open spec fn tagged_only_message(version: Seq<char>) -> Seq<char> {
    "Version "@ + version
        + " is tagged on GitHub, but no GitHub Release with updater assets is published yet. Run the release workflow or attach the updater artifacts before expecting in-app updates to install."@
}

pub const NO_PUBLISHED_RELEASE: &'static str = "No published release is available for this channel yet.";

/// The resolution when GitHub has no release, from its newest release tag: a newer tag is
/// reported as unavailable for in-app update (or up to date when skipped); otherwise the
/// check is up to date after an updater error, and undecided without one.
pub fn resolve_from_latest_tag(
    tag: Option<String>,
    current_version: &str,
    channel: &AppUpdateChannel,
    skipped_version: Option<&str>,
    had_updater_error: bool,
) -> (r: Option<ResolvedAppUpdate>)
    ensures
        ({
            let newer = match tag {
                Some(t) => is_newer_spec(normalized_version(t@), current_version@),
                None => false,
            };
            if newer {
                let version = normalized_version(tag->0@);
                if is_skipped(skipped_version, version) {
                    r matches Some(ResolvedAppUpdate::UpToDate { message }) && message@ == skipped_message(version)
                } else {
                    r matches Some(ResolvedAppUpdate::Unavailable { info, message })
                        && opt_info_view(info) == Some((version, current_version@, *channel, None::<Seq<char>>))
                        && message@ == tagged_only_message(version)
                }
            } else if had_updater_error {
                r matches Some(ResolvedAppUpdate::UpToDate { message }) && message@ == NO_PUBLISHED_RELEASE@
            } else {
                r is None
            }
        }),
{
    match tag {
        Some(t) => {
            let version = normalize_release_version(t.as_str());
            if is_newer_version(version.as_str(), current_version) {
                if skip_matches(skipped_version, version.as_str()) {
                    let message = skipped_text(version.as_str());
                    return Some(ResolvedAppUpdate::UpToDate { message });
                }
                let mut message = String::new();
                message.append("Version ");
                message.append(version.as_str());
                message.append(" is tagged on GitHub, but no GitHub Release with updater assets is published yet. Run the release workflow or attach the updater artifacts before expecting in-app updates to install.");
                let info = AppUpdateInfo { version, current_version: current_version.to_owned(), channel: *channel, notes: None };
                return Some(ResolvedAppUpdate::Unavailable { info: Some(info), message });
            }
        },
        None => {},
    }
    if had_updater_error {
        return Some(ResolvedAppUpdate::UpToDate { message: NO_PUBLISHED_RELEASE.to_owned() });
    }
    None
}

/// The next step with a published release: settled, or the release's own manifest to check.
#[derive(Clone, Debug)]
pub enum ReleaseStep {
    Resolved(ResolvedAppUpdate),
    ValidateManifest { info: AppUpdateInfo, release_url: String },
}

pub const LATEST_BUILD_MESSAGE: &'static str = "You already have the latest published build.";
pub const MATCHES_RELEASE_MESSAGE: &'static str = "This build already matches the latest GitHub release. No in-app update is needed yet.";

pub open spec fn manifest_missing_message(tag: Seq<char>, manifest_name: Seq<char>, url: Seq<char>) -> Seq<char> {
    "Version "@ + tag + " is published on GitHub, but the updater manifest '"@ + manifest_name
        + "' is not attached yet. Try again shortly or install it from "@ + url + "."@
}

/// The page of a release, or the releases page.
pub open spec fn release_url_spec(release: GithubRelease) -> Seq<char> {
    match release.html_url {
        Some(u) => u@,
        None => GITHUB_RELEASES_PAGE@,
    }
}

/// What a published release settles: up to date when it is not newer (or skipped), unavailable
/// while its manifest is missing, else its manifest is to be checked.
pub fn resolve_from_release(
    release: &GithubRelease,
    manifest_name: &str,
    channel: &AppUpdateChannel,
    current_version: &str,
    skipped_version: Option<&str>,
) -> (r: ReleaseStep)
    ensures
        ({
            let version = normalized_version(release.tag_name@);
            let expected = (version, current_version@, *channel, opt_text(release.body));
            let has_manifest = has_manifest_spec(release.asset_names@, manifest_name);
            if !is_newer_spec(version, current_version@) {
                r matches ReleaseStep::Resolved(ResolvedAppUpdate::UpToDate { message })
                    && message@ == (if has_manifest { LATEST_BUILD_MESSAGE@ } else { MATCHES_RELEASE_MESSAGE@ })
            } else if is_skipped(skipped_version, version) {
                r matches ReleaseStep::Resolved(ResolvedAppUpdate::UpToDate { message }) && message@ == skipped_message(version)
            } else if !has_manifest {
                r matches ReleaseStep::Resolved(ResolvedAppUpdate::Unavailable { info, message })
                    && opt_info_view(info) == Some(expected)
                    && message@ == manifest_missing_message(release.tag_name@, manifest_name@, release_url_spec(*release))
            } else {
                r matches ReleaseStep::ValidateManifest { info, release_url }
                    && info_view(info) == expected && release_url@ == release_url_spec(*release)
            }
        }),
{
    let info = update_info_from_release(release, channel, current_version);
    let has_manifest = release_has_manifest(release, manifest_name);
    if !is_newer_version(info.version.as_str(), current_version) {
        let message = if has_manifest { LATEST_BUILD_MESSAGE.to_owned() } else { MATCHES_RELEASE_MESSAGE.to_owned() };
        return ReleaseStep::Resolved(ResolvedAppUpdate::UpToDate { message });
    }
    if skip_matches(skipped_version, info.version.as_str()) {
        let message = skipped_text(info.version.as_str());
        return ReleaseStep::Resolved(ResolvedAppUpdate::UpToDate { message });
    }
    let release_url = match &release.html_url {
        Some(u) => u.clone(),
        None => GITHUB_RELEASES_PAGE.to_owned(),
    };
    if !has_manifest {
        let mut message = String::new();
        message.append("Version ");
        message.append(release.tag_name.as_str());
        message.append(" is published on GitHub, but the updater manifest '");
        message.append(manifest_name);
        message.append("' is not attached yet. Try again shortly or install it from ");
        message.append(release_url.as_str());
        message.append(".");
        return ReleaseStep::Resolved(ResolvedAppUpdate::Unavailable { info: Some(info), message });
    }
    ReleaseStep::ValidateManifest { info, release_url }
}

pub open spec fn stale_manifest_message(version: Seq<char>, url: Seq<char>) -> Seq<char> {
    "Version "@ + version
        + " is published and its updater manifest is attached, but GitHub is still serving updater metadata that resolves to the current build. Try again shortly or install it from "@
        + url + "."@
}

/// What the check of a release's own manifest settles: the update it offers, or unavailable
/// while it still resolves to the current build.
pub fn resolve_after_manifest_check(offered: Option<AppUpdateInfo>, info: AppUpdateInfo, release_url: &str) -> (r: ResolvedAppUpdate)
    ensures
        match offered {
            Some(u) => r == ResolvedAppUpdate::Available { info: u },
            None => r matches ResolvedAppUpdate::Unavailable { info: i, message }
                && opt_info_view(i) == Some(info_view(info))
                && message@ == stale_manifest_message(info.version@, release_url@),
        },
{
    match offered {
        Some(u) => ResolvedAppUpdate::Available { info: u },
        None => {
            let mut message = String::new();
            message.append("Version ");
            message.append(info.version.as_str());
            message.append(" is published and its updater manifest is attached, but GitHub is still serving updater metadata that resolves to the current build. Try again shortly or install it from ");
            message.append(release_url);
            message.append(".");
            ResolvedAppUpdate::Unavailable { info: Some(info), message }
        },
    }
}

pub open spec fn guardrail_message(target: Seq<char>) -> Seq<char> {
    "The first restart after updating to "@ + target
        + " failed. VDM will skip that build on future checks until a newer release is available."@
}

/// Skips a build whose first start failed, and says so.
pub fn apply_failed_update_guardrails(settings: &mut EngineSettings, pending: &PendingAppUpdateTransition) -> (r: String)
    ensures
        opt_text(final(settings).skipped_update_version) == Some(pending.target_version@),
        *final(settings) == (EngineSettings { skipped_update_version: final(settings).skipped_update_version, ..*old(settings) }),
        r@ == guardrail_message(pending.target_version@),
{
    let channel = pending.channel;
    set_skipped_version_for_channel(settings, &channel, Some(pending.target_version.clone()));
    let mut out = String::new();
    out.append("The first restart after updating to ");
    out.append(pending.target_version.as_str());
    out.append(" failed. VDM will skip that build on future checks until a newer release is available.");
    out
}

/// A health report for a pending transition.
pub open spec fn health_matches(
    h: AppUpdateStartupHealth,
    pending: PendingAppUpdateTransition,
    observed: Seq<char>,
    checked_at: i64,
    status: AppUpdateStartupHealthStatus,
    message: Seq<char>,
) -> bool {
    &&& h.status == status
    &&& h.channel == pending.channel
    &&& h.from_version@ == pending.from_version@
    &&& h.target_version@ == pending.target_version@
    &&& h.observed_version@ == observed
    &&& h.checked_at == checked_at
    &&& opt_text(h.message) == Some(message)
}

fn health_report(
    pending: &PendingAppUpdateTransition,
    observed: &str,
    checked_at: i64,
    status: AppUpdateStartupHealthStatus,
    message: String,
) -> (h: AppUpdateStartupHealth)
    ensures
        health_matches(h, *pending, observed@, checked_at, status, message@),
{
    AppUpdateStartupHealth {
        status,
        channel: pending.channel,
        from_version: pending.from_version.clone(),
        target_version: pending.target_version.clone(),
        observed_version: observed.to_owned(),
        checked_at,
        message: Some(message),
    }
}

pub const PENDING_HEALTH_MESSAGE: &'static str = "Validating the updated build and confirming persisted engine settings.";
pub const RESTORED_SETTINGS_MESSAGE: &'static str = "The updated build started with default engine settings, so VDM restored your previous transfer profile.";
pub const HEALTHY_MESSAGE: &'static str = "The updated build passed its first-start health check and kept your engine settings intact.";
pub const SETTINGS_UNINSPECTED_MESSAGE: &'static str = "VDM could not inspect persisted engine settings after the update finished.";

/// The health shown while a restart into an update awaits validation.
pub fn pending_startup_health_from(pending: &PendingAppUpdateTransition, observed_version: &str) -> (r: Option<AppUpdateStartupHealth>)
    ensures
        if pending.phase != PendingAppUpdatePhase::AwaitingValidation {
            r is None
        } else {
            r matches Some(h) && health_matches(h, *pending, observed_version@, pending.recorded_at,
                AppUpdateStartupHealthStatus::Pending, PENDING_HEALTH_MESSAGE@)
        },
{
    if pending.phase != PendingAppUpdatePhase::AwaitingValidation {
        return None;
    }
    Some(health_report(pending, observed_version, pending.recorded_at, AppUpdateStartupHealthStatus::Pending,
        PENDING_HEALTH_MESSAGE.to_owned()))
}

pub open spec fn version_mismatch_message(target: Seq<char>, observed: Seq<char>) -> Seq<char> {
    "Expected version "@ + target + " after restart, but the app started as "@ + observed + "."@
}

pub open spec fn bootstrap_failed_message(error: Seq<char>) -> Seq<char> {
    "The updated build started, but engine bootstrap failed: "@ + error
}

/// A first start whose check failed: with the settings at hand the build is skipped
/// (`RollbackTriggered`, the reason followed by the skip notice), else it only `Failed`.
pub open spec fn failed_start(
    pending: PendingAppUpdateTransition,
    observed: Seq<char>,
    checked_at: i64,
    reason: Seq<char>,
    old_settings: Option<EngineSettings>,
    new_settings: Option<EngineSettings>,
    r: StartupHealthEvaluation,
) -> bool {
    &&& !r.settings_restored
    &&& match old_settings {
        Some(o) => {
            &&& r.settings_changed
            &&& r.health matches Some(h) && health_matches(h, pending, observed, checked_at,
                AppUpdateStartupHealthStatus::RollbackTriggered, reason + " "@ + guardrail_message(pending.target_version@))
            &&& new_settings matches Some(n) && opt_text(n.skipped_update_version) == Some(pending.target_version@)
                && n == (EngineSettings { skipped_update_version: n.skipped_update_version, ..o })
        },
        None => {
            &&& !r.settings_changed
            &&& r.health matches Some(h) && health_matches(h, pending, observed, checked_at,
                AppUpdateStartupHealthStatus::Failed, reason)
            &&& new_settings is None
        },
    }
}

fn fail_start(
    pending: &PendingAppUpdateTransition,
    observed: &str,
    checked_at: i64,
    reason: String,
    settings: &mut Option<EngineSettings>,
) -> (r: StartupHealthEvaluation)
    ensures
        failed_start(*pending, observed@, checked_at, reason@, *old(settings), *final(settings), r),
{
    match settings {
        Some(current) => {
            let guard = apply_failed_update_guardrails(current, pending);
            let mut message = reason;
            message.append(" ");
            message.append(guard.as_str());
            let health = health_report(pending, observed, checked_at, AppUpdateStartupHealthStatus::RollbackTriggered, message);
            StartupHealthEvaluation { health: Some(health), settings_restored: false, settings_changed: true }
        },
        None => {
            let health = health_report(pending, observed, checked_at, AppUpdateStartupHealthStatus::Failed, reason);
            StartupHealthEvaluation { health: Some(health), settings_restored: false, settings_changed: false }
        },
    }
}

/// The first-start check after an update: the build must be the one installed and the engine
/// must have started; then settings that came back as the defaults are restored from the
/// ones recorded before the update. `defaults` are the settings a fresh install starts with.
pub fn evaluate_startup_health(
    pending: &PendingAppUpdateTransition,
    observed_version: &str,
    checked_at: i64,
    settings: &mut Option<EngineSettings>,
    bootstrap_error: Option<&str>,
    defaults: &EngineSettings,
) -> (r: StartupHealthEvaluation)
    ensures
        if pending.phase != PendingAppUpdatePhase::AwaitingValidation {
            &&& r.health is None
            &&& !r.settings_restored
            &&& !r.settings_changed
            &&& *final(settings) == *old(settings)
        } else if observed_version@ != pending.target_version@ {
            failed_start(*pending, observed_version@, checked_at,
                version_mismatch_message(pending.target_version@, observed_version@), *old(settings), *final(settings), r)
        } else if bootstrap_error is Some {
            failed_start(*pending, observed_version@, checked_at,
                bootstrap_failed_message(bootstrap_error->0@), *old(settings), *final(settings), r)
        } else {
            match *old(settings) {
                Some(o) => if settings_view(o) == settings_view(*defaults) && settings_view(pending.settings) != settings_view(*defaults) {
                    &&& r.settings_restored
                    &&& r.settings_changed
                    &&& *final(settings) == Some(pending.settings)
                    &&& r.health matches Some(h) && health_matches(h, *pending, observed_version@, checked_at,
                        AppUpdateStartupHealthStatus::RestoredSettings, RESTORED_SETTINGS_MESSAGE@)
                } else {
                    &&& !r.settings_restored
                    &&& !r.settings_changed
                    &&& *final(settings) == *old(settings)
                    &&& r.health matches Some(h) && health_matches(h, *pending, observed_version@, checked_at,
                        AppUpdateStartupHealthStatus::Healthy, HEALTHY_MESSAGE@)
                },
                None => {
                    &&& !r.settings_restored
                    &&& !r.settings_changed
                    &&& *final(settings) is None
                    &&& r.health matches Some(h) && health_matches(h, *pending, observed_version@, checked_at,
                        AppUpdateStartupHealthStatus::Failed, SETTINGS_UNINSPECTED_MESSAGE@)
                },
            }
        },
{
    if pending.phase != PendingAppUpdatePhase::AwaitingValidation {
        return StartupHealthEvaluation::default();
    }
    if !crate::text::str_equal(observed_version, pending.target_version.as_str()) {
        let mut reason = String::new();
        reason.append("Expected version ");
        reason.append(pending.target_version.as_str());
        reason.append(" after restart, but the app started as ");
        reason.append(observed_version);
        reason.append(".");
        return fail_start(pending, observed_version, checked_at, reason, settings);
    }
    match bootstrap_error {
        Some(error) => {
            let mut reason = String::new();
            reason.append("The updated build started, but engine bootstrap failed: ");
            reason.append(error);
            return fail_start(pending, observed_version, checked_at, reason, settings);
        },
        None => {},
    }
    match settings {
        Some(current) => {
            if same_settings(current, defaults) && !same_settings(&pending.settings, defaults) {
                *current = copy_settings(&pending.settings);
                let health = health_report(pending, observed_version, checked_at,
                    AppUpdateStartupHealthStatus::RestoredSettings, RESTORED_SETTINGS_MESSAGE.to_owned());
                StartupHealthEvaluation { health: Some(health), settings_restored: true, settings_changed: true }
            } else {
                let health = health_report(pending, observed_version, checked_at,
                    AppUpdateStartupHealthStatus::Healthy, HEALTHY_MESSAGE.to_owned());
                StartupHealthEvaluation { health: Some(health), settings_restored: false, settings_changed: false }
            }
        },
        None => {
            let health = health_report(pending, observed_version, checked_at,
                AppUpdateStartupHealthStatus::Failed, SETTINGS_UNINSPECTED_MESSAGE.to_owned());
            StartupHealthEvaluation { health: Some(health), settings_restored: false, settings_changed: false }
        },
    }
}

/// Whether a temporary file was left by an updater run of this application.
pub open spec fn stale_artifact_spec(file_name: Seq<u8>) -> bool {
    &&& crate::text::starts_with_ci(file_name, "velocity download manager-".spec_bytes())
    &&& (crate::text::contains_ci(file_name, "-updater-".spec_bytes()) || crate::text::contains_ci(file_name, "-installer".spec_bytes()))
}

pub fn is_stale_updater_temp_artifact(file_name: &str) -> (r: bool)
    ensures
        r == stale_artifact_spec(file_name.spec_bytes()),
{
    crate::text::str_starts_with_ci(file_name, "velocity download manager-")
        && (crate::text::str_contains_ci(file_name, "-updater-") || crate::text::str_contains_ci(file_name, "-installer"))
}

} // verus!
