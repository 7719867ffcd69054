//! Configuration: the validated snapshot of the monitor's settings, and
//! the rules that accept or reject the raw environment values.

use vstd::prelude::*;
use crate::text::{
    split_trimmed, cleaned_segments, parse_decimal_u64, all_digits, dec_value,
};

verus! {

/// Whether `url::Url::parse` accepts `s` as an absolute URL. Parsing is a
/// function of the characters alone.
pub uninterp spec fn url_accepts(s: Seq<char>) -> bool;

/// Relies on url::Url::parse: whether a string parses as an absolute URL
/// depends on the string alone.
#[verifier::external_body]
fn url_syntax_ok(s: &str) -> (r: bool)
    ensures
        r == url_accepts(s@),
{
    url::Url::parse(s).is_ok()
}

/// Why configuration loading failed. Each variant corresponds to exactly
/// one rejected input, in the order the checks run.
#[derive(Debug)]
pub enum ConfigError {
    /// `UPNOTIF_URLS` was not set.
    MissingUrls,
    /// `UPNOTIF_SLACK_WEBHOOK` was not set.
    MissingWebhook,
    /// `UPNOTIF_INTERVAL_SECONDS` was set but is not a positive decimal
    /// number that fits in a `u64`.
    InvalidInterval,
    /// `UPNOTIF_URLS` held no endpoint once split, trimmed and cleaned of
    /// empty segments.
    NoUrls,
    /// The carried endpoint, the first one in configuration order that is
    /// not a valid URL.
    InvalidUrl(String),
    /// The webhook is neither the console-mode sentinel nor a valid URL.
    InvalidWebhook,
}

impl ConfigError {
    /// The descriptive message reported for this failure.
    pub open spec fn spec_message(self) -> Seq<char> {
        match self {
            ConfigError::MissingUrls => "UPNOTIF_URLS environment variable is required"@,
            ConfigError::MissingWebhook => "UPNOTIF_SLACK_WEBHOOK environment variable is required"@,
            ConfigError::InvalidInterval => "UPNOTIF_INTERVAL_SECONDS must be a positive number"@,
            ConfigError::NoUrls => "At least one URL must be provided in UPNOTIF_URLS"@,
            ConfigError::InvalidUrl(u) => "Invalid URL: "@ + u@,
            ConfigError::InvalidWebhook => "Invalid Slack webhook URL"@,
        }
    }

    pub fn message(&self) -> (r: String)
        ensures
            r@ == self.spec_message(),
    {
        match self {
            ConfigError::MissingUrls => String::from_str(
                "UPNOTIF_URLS environment variable is required",
            ),
            ConfigError::MissingWebhook => String::from_str(
                "UPNOTIF_SLACK_WEBHOOK environment variable is required",
            ),
            ConfigError::InvalidInterval => String::from_str(
                "UPNOTIF_INTERVAL_SECONDS must be a positive number",
            ),
            ConfigError::NoUrls => String::from_str(
                "At least one URL must be provided in UPNOTIF_URLS",
            ),
            ConfigError::InvalidUrl(u) => String::from_str("Invalid URL: ").concat(u.as_str()),
            ConfigError::InvalidWebhook => String::from_str("Invalid Slack webhook URL"),
        }
    }
}

/// The immutable configuration snapshot: the endpoints to monitor, the
/// notification target, and the polling interval.
pub struct Config {
    /// The endpoints, in configuration order.
    pub urls: Vec<String>,
    /// The webhook URL, or the sentinel `test`.
    pub slack_webhook: String,
    /// Seconds between steady-state cycles.
    pub interval_seconds: u64,
    /// True when notifications go to the console instead of the webhook.
    pub test_mode: bool,
}

impl Config {
    /// What every loaded configuration satisfies: at least one endpoint,
    /// every endpoint a valid URL, a positive interval, and a coherent
    /// notification target.
    pub open spec fn wf(self) -> bool {
        &&& self.urls@.len() > 0
        &&& forall|i: int| 0 <= i < self.urls@.len() ==> url_accepts(#[trigger] self.urls@[i]@)
        &&& self.interval_seconds > 0
        &&& self.test_mode <==> self.slack_webhook@ == "test"@
        &&& !self.test_mode ==> url_accepts(self.slack_webhook@)
    }
}

/// Whether `u` is the first entry of `segs` that is not a valid URL:
/// everything before position `i` is accepted, and the entry there, which
/// is `u`, is not.
pub open spec fn first_rejected_url(segs: Seq<Seq<char>>, i: int, u: Seq<char>) -> bool {
    &&& 0 <= i < segs.len()
    &&& !url_accepts(segs[i])
    &&& u == segs[i]
    &&& forall|j: int| 0 <= j < i ==> url_accepts(#[trigger] segs[j])
}

/// Whether the raw interval value is acceptable: absent (the default
/// applies), or a positive decimal number that fits in a `u64`.
pub open spec fn interval_valid(t: Option<String>) -> bool {
    match t {
        Option::None => true,
        Option::Some(s) => s@.len() > 0 && all_digits(s@) && 0 < dec_value(s@) <= u64::MAX,
    }
}

/// The interval a raw value denotes: its decimal value, or 60 when absent.
pub open spec fn interval_value(t: Option<String>) -> int {
    match t {
        Option::None => 60,
        Option::Some(s) => dec_value(s@),
    }
}

/// What a successful load returns, given the three raw values: the
/// endpoint list is the cleaned split of `UPNOTIF_URLS`, the webhook and
/// interval are taken over, and test mode holds exactly when the webhook
/// is the sentinel `test`.
pub open spec fn loaded_config(
    c: Config,
    urls_str: Option<String>,
    webhook: Option<String>,
    interval: Option<String>,
) -> bool {
    &&& urls_str is Some
    &&& webhook is Some
    &&& interval_valid(interval)
    &&& c.urls@.map_values(|t: String| t@) == cleaned_segments(urls_str->0@)
    &&& c.urls@.len() > 0
    &&& c.slack_webhook@ == webhook->0@
    &&& c.interval_seconds == interval_value(interval)
    &&& c.test_mode == (webhook->0@ == "test"@)
    &&& c.wf()
}

/// When each configuration error is returned, given the three raw
/// values: exactly the first check that fails, in the order the checks
/// run.
pub open spec fn load_error(
    e: ConfigError,
    urls_str: Option<String>,
    webhook: Option<String>,
    interval: Option<String>,
) -> bool {
    match e {
        ConfigError::MissingUrls => urls_str is None,
        ConfigError::MissingWebhook => urls_str is Some && webhook is None,
        ConfigError::InvalidInterval => {
            &&& urls_str is Some
            &&& webhook is Some
            &&& !interval_valid(interval)
        },
        ConfigError::NoUrls => {
            &&& urls_str is Some
            &&& webhook is Some
            &&& interval_valid(interval)
            &&& cleaned_segments(urls_str->0@).len() == 0
        },
        ConfigError::InvalidUrl(u) => {
            &&& urls_str is Some
            &&& webhook is Some
            &&& interval_valid(interval)
            &&& exists|i: int| first_rejected_url(cleaned_segments(urls_str->0@), i, u@)
        },
        ConfigError::InvalidWebhook => {
            &&& urls_str is Some
            &&& webhook is Some
            &&& interval_valid(interval)
            &&& cleaned_segments(urls_str->0@).len() > 0
            &&& forall|i: int|
                0 <= i < cleaned_segments(urls_str->0@).len() ==> url_accepts(
                    #[trigger] cleaned_segments(urls_str->0@)[i],
                )
            &&& webhook->0@ != "test"@
            &&& !url_accepts(webhook->0@)
        },
    }
}

/// Validate the three raw environment values and assemble the
/// configuration. `None` stands for an unset variable. The checks run in
/// order; the first failure decides the error.
#[verifier::loop_isolation(false)]
pub fn from_env_values(
    urls_str: Option<String>,
    webhook: Option<String>,
    interval: Option<String>,
) -> (r: Result<Config, ConfigError>)
    ensures
        match r {
            Result::Ok(c) => loaded_config(c, urls_str, webhook, interval),
            Result::Err(e) => load_error(e, urls_str, webhook, interval),
        },
{
    let urls_value: String = match &urls_str {
        Option::Some(u) => u.clone(),
        Option::None => { return Result::Err(ConfigError::MissingUrls) },
    };
    let hook: String = match &webhook {
        Option::Some(w) => w.clone(),
        Option::None => { return Result::Err(ConfigError::MissingWebhook) },
    };
    let interval_seconds: u64 = match &interval {
        Option::None => 60,
        Option::Some(t) => {
            match parse_decimal_u64(t.as_str()) {
                Option::Some(v) => {
                    if v == 0 {
                        return Result::Err(ConfigError::InvalidInterval);
                    }
                    v
                },
                Option::None => { return Result::Err(ConfigError::InvalidInterval) },
            }
        },
    };
    let urls = split_trimmed(urls_value.as_str());
    if urls.len() == 0 {
        return Result::Err(ConfigError::NoUrls);
    }
    let ghost segs = cleaned_segments(urls_str->0@);
    let mut k: usize = 0;
    while k < urls.len()
        invariant
            k <= urls@.len(),
            urls@.map_values(|t: String| t@) == segs,
            forall|j: int| 0 <= j < k ==> url_accepts(#[trigger] segs[j]),
        decreases urls@.len() - k,
    {
        proof {
            assert(segs[k as int] == urls@[k as int]@);
        }
        if !url_syntax_ok(urls[k].as_str()) {
            let offender = urls[k].clone();
            let err = ConfigError::InvalidUrl(offender);
            proof {
                let uu = match &err {
                    ConfigError::InvalidUrl(u) => u@,
                    _ => Seq::<char>::empty(),
                };
                assert(first_rejected_url(cleaned_segments(urls_str->0@), k as int, uu));
                assert(load_error(err, urls_str, webhook, interval));
            }
            return Result::Err(err);
        }
        k += 1;
    }
    let sentinel = String::from_str("test");
    let test_mode = hook == sentinel;
    if !test_mode {
        if !url_syntax_ok(hook.as_str()) {
            return Result::Err(ConfigError::InvalidWebhook);
        }
    }
    proof {
        assert(forall|i: int|
            0 <= i < urls@.len() ==> url_accepts(#[trigger] urls@[i]@)) by {
            assert(forall|i: int| 0 <= i < urls@.len() ==> #[trigger] urls@[i]@ == segs[i]);
        }
    }
    Result::Ok(
        Config {
            urls,
            slack_webhook: hook,
            interval_seconds,
            test_mode,
        },
    )
}

} // verus!
