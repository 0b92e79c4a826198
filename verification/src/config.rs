//! Configuration: what it must satisfy, and what a client set up from it does.
use vstd::prelude::*;
use vstd::string::*;

use crate::text::{decimal_digits, push_decimal};

verus! {

/// The target of the client's own log lines. Whatever is logged below it must not be sent, or
/// sending would give rise to more of it.
pub const INTERNAL_TARGET: &'static str = "tracing_axiom::internal";

/// The header that names the dataset of a metrics request.
pub const AXIOM_DATASET_HEADER: &'static str = "X-Axiom-Dataset";

/// Seconds that a request may take in all.
pub const TIMEOUT_REQ_SECS: u64 = 300;

/// Seconds that connecting may take.
pub const TIMEOUT_CONNECT_SECS: u64 = 30;

/// Seconds that may pass without a byte of the response.
pub const TIMEOUT_READ_SECS: u64 = 120;

/// The most items that the ingest service takes in one request.
pub const COLLECT_TARGET_MAX: usize = 10_000;

/// Which datasets receive what.
#[derive(Clone, Copy, Debug)]
pub enum DatasetIds<'a> {
    /// Send events to `POST {base_url}/v1/ingest/{dataset_id}`.
    Events { dataset_id: &'a str },
    /// Send metrics to `POST {base_url}/v1/metrics` with `X-Axiom-Dataset`.
    Metrics { dataset_id: &'a str },
    /// Send events and metrics, allowing distinct datasets for each.
    All { event_dataset_id: &'a str, metric_dataset_id: &'a str },
}

impl<'a> DatasetIds<'a> {
    /// The dataset that events go to, if any.
    pub open spec fn events(self) -> Option<&'a str> {
        match self {
            DatasetIds::Events { dataset_id } => Some(dataset_id),
            DatasetIds::Metrics { .. } => None,
            DatasetIds::All { event_dataset_id, .. } => Some(event_dataset_id),
        }
    }

    /// The dataset that metrics go to, if any.
    pub open spec fn metrics(self) -> Option<&'a str> {
        match self {
            DatasetIds::Events { .. } => None,
            DatasetIds::Metrics { dataset_id } => Some(dataset_id),
            DatasetIds::All { metric_dataset_id, .. } => Some(metric_dataset_id),
        }
    }

    /// The dataset that events go to, if any.
    pub fn event_dataset_id(self) -> (r: Option<&'a str>)
        ensures
            r == self.events(),
    {
        match self {
            DatasetIds::Events { dataset_id } => Some(dataset_id),
            DatasetIds::Metrics { .. } => None,
            DatasetIds::All { event_dataset_id, .. } => Some(event_dataset_id),
        }
    }

    /// The dataset that metrics go to, if any.
    pub fn metric_dataset_id(self) -> (r: Option<&'a str>)
        ensures
            r == self.metrics(),
    {
        match self {
            DatasetIds::Events { .. } => None,
            DatasetIds::Metrics { dataset_id } => Some(dataset_id),
            DatasetIds::All { metric_dataset_id, .. } => Some(metric_dataset_id),
        }
    }
}

/// Settings of a client.
#[derive(Clone, Copy, Debug)]
pub struct Config<'a> {
    /// Ingest auth token.
    pub api_key: &'a str,
    /// Base domain of the ingest API, as a URL. Paths are appended to it.
    pub base_url: &'a str,
    /// Datasets to use for events and metrics.
    pub datasets: DatasetIds<'a>,
    /// Event queue length. Events are dropped once the queue is full.
    pub evt_que_len: usize,
    /// Metric queue length.
    pub met_que_len: usize,
    /// Name of the service that sends.
    pub service_name: &'a str,
    /// Try to collect this many items before sending. Above zero and at most ten thousand.
    pub collect_target: usize,
    /// Send what is there if the target was not reached after so many nanoseconds.
    pub collect_timeout_ns: u128,
    /// How many requests may be under way at once.
    pub sender_pool_size: usize,
}

/// Why a client cannot be set up.
#[derive(Clone, Copy, Debug, PartialEq, Eq, Structural)]
pub enum ConfigFault {
    EvtQueLen,
    MetQueLen,
    CollectTargetZero,
    CollectTargetTooLarge,
    SenderPoolSize,
    ApiKey,
    EventUrl,
    MetricUrl,
    MetricDataset,
}

impl ConfigFault {
    /// The complaint.
    pub fn message(&self) -> (r: &'static str)
        ensures
            r@ == (match self {
                ConfigFault::EvtQueLen => "evt_que_len must be > 0"@,
                ConfigFault::MetQueLen => "met_que_len must be > 0"@,
                ConfigFault::CollectTargetZero => "collect_target must be > 0"@,
                ConfigFault::CollectTargetTooLarge => "collect_target must be <= 10_000"@,
                ConfigFault::SenderPoolSize => "sender_pool_size must be > 0"@,
                ConfigFault::ApiKey => "api_key must be a valid header value"@,
                ConfigFault::EventUrl => "base_url must take the event ingest path"@,
                ConfigFault::MetricUrl => "base_url must take the metrics path"@,
                ConfigFault::MetricDataset => "metric dataset must be a valid header value"@,
            }),
    {
        match self {
            ConfigFault::EvtQueLen => "evt_que_len must be > 0",
            ConfigFault::MetQueLen => "met_que_len must be > 0",
            ConfigFault::CollectTargetZero => "collect_target must be > 0",
            ConfigFault::CollectTargetTooLarge => "collect_target must be <= 10_000",
            ConfigFault::SenderPoolSize => "sender_pool_size must be > 0",
            ConfigFault::ApiKey => "api_key must be a valid header value",
            ConfigFault::EventUrl => "base_url must take the event ingest path",
            ConfigFault::MetricUrl => "base_url must take the metrics path",
            ConfigFault::MetricDataset => "metric dataset must be a valid header value",
        }
    }
}

/// A character that a header value may hold: a tab, or anything but a control character.
pub open spec fn header_char(c: char) -> bool {
    c == '\t' || (c as u32) >= 32 && (c as u32) != 127
}

/// Text that a header value may hold.
pub open spec fn header_text(text: Seq<char>) -> bool {
    forall|i: int| 0 <= i < text.len() ==> header_char(#[trigger] text[i])
}

/// Calls `reqwest::header::HeaderValue::from_str`: it succeeds exactly on text that holds no
/// control character but the tab.
#[verifier::external_body]
fn header_value_ok(text: &str) -> (r: bool)
    ensures
        r == header_text(text@),
{
    reqwest::header::HeaderValue::from_str(text).is_ok()
}

/// What `reqwest::Url::join` gives for a path on the URL that `base` spells, as text; nothing
/// where `base` is no URL or cannot be joined with the path.
pub uninterp spec fn url_joined(base: Seq<char>, path: Seq<char>) -> Option<Seq<char>>;

/// Calls `reqwest::Url::join` on the URL that `base` spells. Its result is [`url_joined`] of
/// the two texts.
#[verifier::external_body]
fn url_join(base: &str, path: &str) -> (r: Option<String>)
    ensures
        r is Some <==> url_joined(base@, path@) is Some,
        r matches Some(url) ==> url_joined(base@, path@) == Some(url@),
{
    let base = reqwest::Url::parse(base).ok()?;
    base.join(path).ok().map(String::from)
}

/// The `Authorization` header value.
pub open spec fn bearer_text(api_key: Seq<char>) -> Seq<char> {
    "Bearer "@ + api_key
}

/// The path that events of a dataset are posted to.
pub open spec fn event_path(dataset_id: Seq<char>) -> Seq<char> {
    "v1/ingest/"@ + dataset_id
}

/// The first thing that is wrong with a configuration, given whether its URLs could be made.
pub open spec fn config_fault(cfg: Config, event_url: bool, metric_url: bool) -> Option<
    ConfigFault,
> {
    if cfg.evt_que_len == 0 {
        Some(ConfigFault::EvtQueLen)
    } else if cfg.met_que_len == 0 {
        Some(ConfigFault::MetQueLen)
    } else if cfg.collect_target == 0 {
        Some(ConfigFault::CollectTargetZero)
    } else if cfg.collect_target > COLLECT_TARGET_MAX {
        Some(ConfigFault::CollectTargetTooLarge)
    } else if cfg.sender_pool_size == 0 {
        Some(ConfigFault::SenderPoolSize)
    } else if !header_text(bearer_text(cfg.api_key@)) {
        Some(ConfigFault::ApiKey)
    } else if cfg.datasets.events() is Some && !event_url {
        Some(ConfigFault::EventUrl)
    } else if cfg.datasets.metrics() is Some && !metric_url {
        Some(ConfigFault::MetricUrl)
    } else if cfg.datasets.metrics() matches Some(dataset_id) && !header_text(dataset_id@) {
        Some(ConfigFault::MetricDataset)
    } else {
        None
    }
}

/// Where one kind of item goes.
pub struct Route {
    /// The URL to post to.
    pub url: String,
    /// The dataset header to send along.
    pub axiom_dataset: Option<String>,
}

/// What a client set up from a configuration does. A kind without a route is not sent: its
/// queue has no receiver.
pub struct InitPlan {
    /// The `Authorization` header value.
    pub bearer: String,
    /// Where events go.
    pub events: Option<Route>,
    /// Where metrics go.
    pub metrics: Option<Route>,
}

impl InitPlan {
    /// The plan follows the configuration, given the URLs.
    pub open spec fn follows(
        &self,
        cfg: Config,
        event_url: Option<Seq<char>>,
        metric_url: Option<Seq<char>>,
    ) -> bool {
        &&& self.bearer@ == bearer_text(cfg.api_key@)
        &&& self.events is Some <==> cfg.datasets.events() is Some
        &&& self.events matches Some(route) ==> {
            &&& event_url == Some(route.url@)
            &&& route.axiom_dataset is None
        }
        &&& self.metrics is Some <==> cfg.datasets.metrics() is Some
        &&& self.metrics matches Some(route) ==> {
            &&& metric_url == Some(route.url@)
            &&& route.axiom_dataset is Some
            &&& route.axiom_dataset->0@ == cfg.datasets.metrics()->0@
        }
    }
}

/// Optional text as characters.
pub open spec fn opt_text(text: Option<String>) -> Option<Seq<char>> {
    match text {
        Some(text) => Some(text@),
        None => None,
    }
}

/// Checks a configuration and lays out the client, given the URLs of the routes.
pub fn init_plan_at(cfg: Config, event_url: Option<String>, metric_url: Option<String>) -> (r:
    Result<InitPlan, ConfigFault>)
    ensures
        match r {
            Ok(plan) => {
                &&& config_fault(cfg, event_url is Some, metric_url is Some) is None
                &&& plan.follows(cfg, opt_text(event_url), opt_text(metric_url))
            },
            Err(fault) => config_fault(cfg, event_url is Some, metric_url is Some) == Some(fault),
        },
{
    if cfg.evt_que_len == 0 {
        return Err(ConfigFault::EvtQueLen);
    }
    if cfg.met_que_len == 0 {
        return Err(ConfigFault::MetQueLen);
    }
    if cfg.collect_target == 0 {
        return Err(ConfigFault::CollectTargetZero);
    }
    if cfg.collect_target > COLLECT_TARGET_MAX {
        return Err(ConfigFault::CollectTargetTooLarge);
    }
    if cfg.sender_pool_size == 0 {
        return Err(ConfigFault::SenderPoolSize);
    }
    let bearer: String = "Bearer ".to_owned().concat(cfg.api_key);
    if !header_value_ok(bearer.as_str()) {
        return Err(ConfigFault::ApiKey);
    }
    let events = match cfg.datasets.event_dataset_id() {
        Some(_) => match event_url {
            Some(url) => Some(Route { url, axiom_dataset: None }),
            None => {
                return Err(ConfigFault::EventUrl);
            },
        },
        None => None,
    };
    let metrics = match cfg.datasets.metric_dataset_id() {
        Some(dataset_id) => match metric_url {
            Some(url) => {
                if !header_value_ok(dataset_id) {
                    return Err(ConfigFault::MetricDataset);
                }
                Some(Route { url, axiom_dataset: Some(dataset_id.to_owned()) })
            },
            None => {
                return Err(ConfigFault::MetricUrl);
            },
        },
        None => None,
    };
    Ok(InitPlan { bearer, events, metrics })
}

/// A base to which a path can be appended. Joining a path with a base that does not end in a
/// slash would replace what follows the base's last slash.
pub open spec fn slashed(base: Seq<char>) -> Seq<char> {
    if base.len() > 0 && base.last() == '/' {
        base
    } else {
        base.push('/')
    }
}

/// The URL of a path below the base; nothing where the base takes no path. Joining the base with
/// nothing gives it in its normal form, without blanks around it.
pub open spec fn endpoint_url(base: Seq<char>, path: Seq<char>) -> Option<Seq<char>> {
    match url_joined(base, Seq::empty()) {
        Some(base) => url_joined(slashed(base), path),
        None => None,
    }
}

/// The URL of a path below the base; nothing where the base takes no path.
fn endpoint(base: &str, path: &str) -> (r: Option<String>)
    ensures
        opt_text(r) == endpoint_url(base@, path@),
{
    proof {
        reveal_strlit("");
        reveal_strlit("/");
        assert(""@ =~= Seq::<char>::empty());
    }
    match url_join(base, "") {
        Some(base) => {
            let len: usize = base.as_str().unicode_len();
            if len > 0 && base.as_str().get_char(len - 1) == '/' {
                url_join(base.as_str(), path)
            } else {
                let ghost bare = base@;
                let base: String = base.concat("/");
                assert(base@ =~= slashed(bare));
                url_join(base.as_str(), path)
            }
        },
        None => None,
    }
}

/// The URL that events go to.
pub open spec fn event_url(cfg: Config) -> Option<Seq<char>> {
    match cfg.datasets.events() {
        Some(dataset_id) => endpoint_url(cfg.base_url@, event_path(dataset_id@)),
        None => None,
    }
}

/// The URL that metrics go to.
pub open spec fn metric_url(cfg: Config) -> Option<Seq<char>> {
    match cfg.datasets.metrics() {
        Some(_) => endpoint_url(cfg.base_url@, "v1/metrics"@),
        None => None,
    }
}

/// Checks a configuration and lays out the client.
pub fn init_plan(cfg: Config) -> (r: Result<InitPlan, ConfigFault>)
    ensures
        match r {
            Ok(plan) => {
                &&& config_fault(cfg, event_url(cfg) is Some, metric_url(cfg) is Some) is None
                &&& plan.follows(cfg, event_url(cfg), metric_url(cfg))
            },
            Err(fault) => config_fault(cfg, event_url(cfg) is Some, metric_url(cfg) is Some)
                == Some(fault),
        },
{
    let events: Option<String> = match cfg.datasets.event_dataset_id() {
        Some(dataset_id) => {
            let path: String = "v1/ingest/".to_owned().concat(dataset_id);
            endpoint(cfg.base_url, path.as_str())
        },
        None => None,
    };
    let metrics: Option<String> = match cfg.datasets.metric_dataset_id() {
        Some(_) => endpoint(cfg.base_url, "v1/metrics"),
        None => None,
    };
    init_plan_at(cfg, events, metrics)
}

/// A redirect that must not be followed: it would drop the request's body, and most likely
/// still be answered with success although nobody looked at what was posted.
#[derive(Debug)]
pub struct LossyRedirect {
    status: u16,
    to: String,
}

impl LossyRedirect {
    /// The status of the redirect.
    pub closed spec fn status(&self) -> u16 {
        self.status
    }

    /// Where the redirect leads.
    pub closed spec fn to(&self) -> Seq<char> {
        self.to@
    }

    /// The complaint.
    pub fn message(&self) -> (r: String)
        ensures
            r@ == "lossy HTTP "@ + decimal_digits(self.status() as nat) + " redirect to "@
                + self.to() + " would cut off our body"@,
    {
        let mut s: String = "lossy HTTP ".to_owned();
        push_decimal(&mut s, self.status as u64);
        s.append(" redirect to ");
        s.append(self.to.as_str());
        s.append(" would cut off our body");
        s
    }
}

/// Decides on a redirect: the two kinds that discard the body are refused, any other is left
/// to the HTTP client's own policy.
pub fn check_redirect(status: u16, to: &str) -> (r: Option<LossyRedirect>)
    ensures
        r is Some <==> status == 302 || status == 303,
        r matches Some(lossy) ==> lossy.status() == status && lossy.to() == to@,
{
    if status == 302 || status == 303 {
        Some(LossyRedirect { status, to: to.to_owned() })
    } else {
        None
    }
}

/// How many senders are left besides the one that is about to be closed, if any: while they
/// exist, the queue stays open and shutting down waits for them.
pub fn leftover_senders(strong_count: usize) -> (r: Option<usize>)
    requires
        strong_count >= 1,
    ensures
        r is Some <==> strong_count > 1,
        r matches Some(senders) ==> senders == strong_count - 1,
{
    let senders: usize = strong_count - 1;
    if senders > 0 {
        Some(senders)
    } else {
        None
    }
}

/// Where a configuration is in order, a kind of item has a route exactly if a dataset was named
/// for it, and metrics carry that dataset and no other.
pub proof fn routes_match_datasets(cfg: Config, plan: InitPlan)
    requires
        plan.follows(cfg, event_url(cfg), metric_url(cfg)),
    ensures
        cfg.datasets is Events ==> plan.events is Some && plan.metrics is None,
        cfg.datasets is Metrics ==> plan.events is None && plan.metrics is Some,
        cfg.datasets is All ==> plan.events is Some && plan.metrics is Some,
        cfg.datasets matches DatasetIds::All { metric_dataset_id, .. }
            ==> plan.metrics->0.axiom_dataset->0@ == metric_dataset_id@,
        cfg.datasets matches DatasetIds::All { event_dataset_id, .. } ==> Some(
            plan.events->0.url@,
        ) == endpoint_url(cfg.base_url@, event_path(event_dataset_id@)),
{
}

/// A configuration is in order exactly if both queues and the pool have room, the target is within
/// its bounds, and the key, the routes that are needed and the dataset header can be made. Of
/// several things that are wrong, the first in that order is told.
pub proof fn faults_are_told_in_order(cfg: Config, event_url: bool, metric_url: bool)
    ensures
        ({
            let fault = config_fault(cfg, event_url, metric_url);
            let evt_que = cfg.evt_que_len >= 1;
            let met_que = cfg.met_que_len >= 1;
            let some = cfg.collect_target >= 1;
            let few = cfg.collect_target <= 10_000;
            let pool = cfg.sender_pool_size >= 1;
            let key = header_text("Bearer "@ + cfg.api_key@);
            let events = !(cfg.datasets is Metrics) ==> event_url;
            let metrics = !(cfg.datasets is Events) ==> metric_url;
            let dataset = match cfg.datasets {
                DatasetIds::Events { .. } => true,
                DatasetIds::Metrics { dataset_id } => header_text(dataset_id@),
                DatasetIds::All { metric_dataset_id, .. } => header_text(metric_dataset_id@),
            };
            let sizes = evt_que && met_que && some && few && pool;
            &&& fault is None <==> sizes && key && events && metrics && dataset
            &&& fault == Some(ConfigFault::EvtQueLen) <==> !evt_que
            &&& fault == Some(ConfigFault::MetQueLen) <==> evt_que && !met_que
            &&& fault == Some(ConfigFault::CollectTargetZero) <==> evt_que && met_que && !some
            &&& fault == Some(ConfigFault::CollectTargetTooLarge) <==> evt_que && met_que && !few
            &&& fault == Some(ConfigFault::SenderPoolSize) <==> evt_que && met_que && some && few
                && !pool
            &&& fault == Some(ConfigFault::ApiKey) <==> sizes && !key
            &&& fault == Some(ConfigFault::EventUrl) <==> sizes && key && !events
            &&& fault == Some(ConfigFault::MetricUrl) <==> sizes && key && events && !metrics
            &&& fault == Some(ConfigFault::MetricDataset) <==> sizes && key && events && metrics
                && !dataset
        }),
{
}

/// Header values hold any text but control characters, of which only the tab is taken.
pub proof fn headers_take_no_control_characters(text: Seq<char>, i: int)
    requires
        0 <= i < text.len(),
    ensures
        header_text(text) ==> text[i] == '\t' || text[i] as u32 >= 0x20 && text[i] as u32 != 0x7f,
        header_text(text) <==> header_text(text.remove(i)) && (text[i] == '\t' || text[i] as u32
            >= 0x20 && text[i] as u32 != 0x7f),
        header_text(Seq::empty()),
{
    let rest = text.remove(i);
    if header_text(text) {
        assert(header_char(text[i]));
        assert forall|j: int| 0 <= j < rest.len() implies header_char(#[trigger] rest[j]) by {
            assert(header_char(text[if j < i { j } else { j + 1 }]));
        }
    }
    if header_text(rest) && header_char(text[i]) {
        assert forall|j: int| 0 <= j < text.len() implies header_char(#[trigger] text[j]) by {
            if j < i {
                assert(rest[j] == text[j]);
            } else if j > i {
                assert(rest[j - 1] == text[j]);
            }
        }
    }
}

/// Optional text is the text where there is one.
pub proof fn optional_text_is_kept(text: String)
    ensures
        opt_text(Some(text)) == Some(text@),
        opt_text(None) is None,
{
}

/// Events go to the dataset named for them and metrics to the one named for them, and to no other.
pub proof fn datasets_are_kept_apart(cfg: Config)
    ensures
        match cfg.datasets {
            DatasetIds::Events { dataset_id } => cfg.datasets.events() == Some(dataset_id)
                && cfg.datasets.metrics() is None,
            DatasetIds::Metrics { dataset_id } => cfg.datasets.events() is None
                && cfg.datasets.metrics() == Some(dataset_id),
            DatasetIds::All { event_dataset_id, metric_dataset_id } => cfg.datasets.events()
                == Some(event_dataset_id) && cfg.datasets.metrics() == Some(metric_dataset_id),
        },
{
}

/// Every route is below the base, which ends in one slash more if it ends in none: that of events
/// at the ingest path of their dataset, and that of metrics at their own path.
pub proof fn routes_are_below_the_base(cfg: Config)
    ensures
        ({
            let base = match url_joined(cfg.base_url@, Seq::empty()) {
                Some(base) => Some(
                    if base.len() > 0 && base.last() == '/' {
                        base
                    } else {
                        base + seq!['/']
                    },
                ),
                None => None,
            };
            &&& cfg.datasets is Metrics || base is None ==> event_url(cfg) is None
            &&& cfg.datasets is Events || base is None ==> metric_url(cfg) is None
            &&& base is Some ==> match cfg.datasets {
                DatasetIds::Events { dataset_id } => event_url(cfg) == url_joined(
                    base->0,
                    "v1/ingest/"@ + dataset_id@,
                ),
                DatasetIds::Metrics { .. } => metric_url(cfg) == url_joined(
                    base->0,
                    "v1/metrics"@,
                ),
                DatasetIds::All { event_dataset_id, .. } => event_url(cfg) == url_joined(
                    base->0,
                    "v1/ingest/"@ + event_dataset_id@,
                ) && metric_url(cfg) == url_joined(base->0, "v1/metrics"@),
            }
        }),
{
    match url_joined(cfg.base_url@, Seq::empty()) {
        Some(base) => {
            assert(base.push('/') =~= base + seq!['/']);
        },
        None => {},
    }
}

/// A plan that follows a configuration authorizes with its key, has exactly the routes that are
/// named, at the URLs given for them, and names the dataset with metrics alone.
pub proof fn plans_do_what_was_configured(
    cfg: Config,
    plan: InitPlan,
    event_url: Option<Seq<char>>,
    metric_url: Option<Seq<char>>,
)
    requires
        plan.follows(cfg, event_url, metric_url),
    ensures
        plan.bearer@ == "Bearer "@ + cfg.api_key@,
        plan.events is None <==> cfg.datasets is Metrics,
        plan.metrics is None <==> cfg.datasets is Events,
        plan.events matches Some(route) ==> event_url == Some(route.url@)
            && route.axiom_dataset is None,
        plan.metrics matches Some(route) ==> metric_url == Some(route.url@)
            && route.axiom_dataset is Some && match cfg.datasets {
            DatasetIds::Metrics { dataset_id } => route.axiom_dataset->0@ == dataset_id@,
            DatasetIds::All { metric_dataset_id, .. } => route.axiom_dataset->0@
                == metric_dataset_id@,
            DatasetIds::Events { .. } => false,
        },
{
}

} // verus!
