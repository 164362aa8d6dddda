//! The Datadog metrics path: endpoint routing by metric kind, the
//! resolved intake URIs, payload size governance with halve-and-retry
//! splitting, and the startup healthcheck request.

use vstd::prelude::*;

use crate::batch::BatchConfig;
use crate::host::{parse_uri, uri_parses};
use crate::retry::RequestConfig;
use crate::strutil::clone_string;

verus! {

/// The uncompressed ceiling for one series payload.
pub const MAXIMUM_SERIES_PAYLOAD_SIZE: usize = 62_914_560;

/// The compressed ceiling for one series payload.
pub const MAXIMUM_SERIES_PAYLOAD_COMPRESSED_SIZE: usize = 3_200_000;

/// The metric type-specific intake endpoints; each maps to one request
/// path and one content type.
#[derive(PartialEq, Eq, Structural, Clone, Copy, Debug, Hash)]
pub enum DatadogMetricsEndpoint {
    Series,
    Distribution,
    Sketch,
}

impl DatadogMetricsEndpoint {
    /// Series and distributions go as JSON; sketches as length-prefixed
    /// binary framing.
    pub fn content_type(&self) -> (r: &'static str)
        ensures
            r@ == match *self {
                DatadogMetricsEndpoint::Series => "application/json"@,
                DatadogMetricsEndpoint::Distribution => "application/json"@,
                DatadogMetricsEndpoint::Sketch => "application/x-protobuf"@,
            },
    {
        match self {
            DatadogMetricsEndpoint::Series => "application/json",
            DatadogMetricsEndpoint::Distribution => "application/json",
            DatadogMetricsEndpoint::Sketch => "application/x-protobuf",
        }
    }

    /// The request path under the intake base URI.
    pub fn suffix(&self) -> (r: &'static str)
        ensures
            r@ == match *self {
                DatadogMetricsEndpoint::Series => "/api/v1/series"@,
                DatadogMetricsEndpoint::Distribution => "/api/v1/distribution_points"@,
                DatadogMetricsEndpoint::Sketch => "/api/beta/sketches"@,
            },
    {
        match self {
            DatadogMetricsEndpoint::Series => "/api/v1/series",
            DatadogMetricsEndpoint::Distribution => "/api/v1/distribution_points",
            DatadogMetricsEndpoint::Sketch => "/api/beta/sketches",
        }
    }
}

/// The value variants a metric event can carry; the numeric samples
/// themselves stay with the unverified delivery loop.
#[derive(PartialEq, Eq, Structural, Clone, Copy, Debug)]
pub enum MetricValueKind {
    Counter,
    Gauge,
    Rate,
    Distribution,
    Sketch,
}

/// Counters, gauges and rates go to the series endpoint; distributions
/// and sketches each to their own.
pub fn endpoint_for_kind(kind: MetricValueKind) -> (r: DatadogMetricsEndpoint)
    ensures
        r == match kind {
            MetricValueKind::Counter => DatadogMetricsEndpoint::Series,
            MetricValueKind::Gauge => DatadogMetricsEndpoint::Series,
            MetricValueKind::Rate => DatadogMetricsEndpoint::Series,
            MetricValueKind::Distribution => DatadogMetricsEndpoint::Distribution,
            MetricValueKind::Sketch => DatadogMetricsEndpoint::Sketch,
        },
{
    match kind {
        MetricValueKind::Counter => DatadogMetricsEndpoint::Series,
        MetricValueKind::Gauge => DatadogMetricsEndpoint::Series,
        MetricValueKind::Rate => DatadogMetricsEndpoint::Series,
        MetricValueKind::Distribution => DatadogMetricsEndpoint::Distribution,
        MetricValueKind::Sketch => DatadogMetricsEndpoint::Sketch,
    }
}

/// A metric event as the routing and naming logic sees it.
pub struct Metric {
    pub name: String,
    pub namespace: Option<String>,
    pub timestamp_millis: u64,
    pub kind: MetricValueKind,
    pub tags: Vec<(String, String)>,
}

/// The name a metric is submitted under: an explicit namespace prefixes
/// with a dot; otherwise the configured default does; a bare name stays.
pub fn namespaced_name(m: &Metric, default_namespace: &Option<String>) -> (r: String)
    ensures
        r@ == match m.namespace {
            Some(ns) => ns@ + "."@ + m.name@,
            None => match default_namespace {
                Some(d) => d@ + "."@ + m.name@,
                None => m.name@,
            },
        },
{
    proof {
        reveal_strlit(".");
    }
    match &m.namespace {
        Some(ns) => {
            let mut s = clone_string(ns);
            s.append(".");
            s.append(m.name.as_str());
            s
        },
        None => match default_namespace {
            Some(d) => {
                let mut s = clone_string(d);
                s.append(".");
                s.append(m.name.as_str());
                s
            },
            None => clone_string(&m.name),
        },
    }
}

/// A holder for the per-sink metric series an introspection surface
/// reads.
pub struct GenericSinkMetrics(pub Vec<Metric>);

impl GenericSinkMetrics {
    pub fn new(metrics: Vec<Metric>) -> (r: GenericSinkMetrics)
        ensures
            r.0 == metrics,
    {
        GenericSinkMetrics(metrics)
    }
}

/// What the size governor does with an encoded payload: within both
/// ceilings it passes; an oversized multi-event batch splits in half and
/// retries; an oversized singleton is rejected, never split further.
#[derive(PartialEq, Eq, Structural, Clone, Copy, Debug)]
pub enum PayloadPlan {
    Accept,
    SplitAndRetry(usize),
    RejectSingleton,
}

pub open spec fn spec_payload_fits(uncompressed: usize, compressed: usize) -> bool {
    uncompressed <= MAXIMUM_SERIES_PAYLOAD_SIZE && compressed
        <= MAXIMUM_SERIES_PAYLOAD_COMPRESSED_SIZE
}

/// Applies the two payload ceilings to a batch of `event_count` events.
pub fn plan_for_payload(event_count: usize, uncompressed: usize, compressed: usize) -> (r:
    PayloadPlan)
    requires
        event_count >= 1,
    ensures
        r == if spec_payload_fits(uncompressed, compressed) {
            PayloadPlan::Accept
        } else if event_count > 1 {
            PayloadPlan::SplitAndRetry((event_count / 2) as usize)
        } else {
            PayloadPlan::RejectSingleton
        },
{
    if uncompressed <= MAXIMUM_SERIES_PAYLOAD_SIZE && compressed
        <= MAXIMUM_SERIES_PAYLOAD_COMPRESSED_SIZE {
        PayloadPlan::Accept
    } else if event_count > 1 {
        PayloadPlan::SplitAndRetry(event_count / 2)
    } else {
        PayloadPlan::RejectSingleton
    }
}

/// The Datadog regions the configuration can name.
#[derive(PartialEq, Eq, Structural, Clone, Copy, Debug)]
pub enum Region {
    Us,
    Eu,
}

/// Why the metrics sink configuration is rejected at build time.
#[derive(Debug)]
pub enum BuildError {
    InvalidHost { host: String },
}

/// The metrics sink configuration as the operator writes it.
pub struct DatadogMetricsConfig {
    pub default_namespace: Option<String>,
    pub endpoint: Option<String>,
    pub region: Option<Region>,
    pub site: Option<String>,
    pub api_key: String,
    pub batch: BatchConfig,
    pub request: RequestConfig,
}

/// The startup healthcheck request: a GET the surrounding program
/// performs, success meaning a 2xx status.
pub struct HealthcheckSpec {
    pub uri: String,
    pub api_key_header: String,
    pub api_key: String,
}

/// Whether a healthcheck response counts as passing.
pub fn healthcheck_passes(status: u16) -> (r: bool)
    ensures
        r == (200 <= status < 300),
{
    200 <= status && status < 300
}

/// The version tag woven into the agent-style intake domain.
pub fn version_tag() -> (r: &'static str)
    ensures
        r@ == "0-1-0"@,
{
    "0-1-0"
}

/// The base domain for the given site, region, or the US default.
pub open spec fn spec_site(site: Option<String>, region: Option<Region>) -> Seq<char> {
    match site {
        Some(s) => s@,
        None => match region {
            Some(Region::Eu) => "datadoghq.eu"@,
            _ => "datadoghq.com"@,
        },
    }
}

/// The agent-style intake base: the configured endpoint, or the domain
/// with the version tag woven in.
pub open spec fn spec_base_agent_endpoint(
    endpoint: Option<String>,
    site: Option<String>,
    region: Option<Region>,
) -> Seq<char> {
    match endpoint {
        Some(e) => e@,
        None => "https://"@ + "0-1-0"@ + "-vector.agent."@ + spec_site(site, region),
    }
}

/// The full intake URL of one metric endpoint.
pub open spec fn spec_metric_endpoint_url(
    endpoint: Option<String>,
    site: Option<String>,
    region: Option<Region>,
    which: DatadogMetricsEndpoint,
) -> Seq<char> {
    spec_base_agent_endpoint(endpoint, site, region) + match which {
        DatadogMetricsEndpoint::Series => "/api/v1/series"@,
        DatadogMetricsEndpoint::Distribution => "/api/v1/distribution_points"@,
        DatadogMetricsEndpoint::Sketch => "/api/beta/sketches"@,
    }
}

impl DatadogMetricsConfig {
    /// A configuration holding only the API key, everything else unset.
    pub fn from_api_key(api_key: String) -> (r: DatadogMetricsConfig)
        ensures
            r.api_key == api_key,
            r.default_namespace is None,
            r.endpoint is None,
            r.region is None,
            r.site is None,
            r.batch.max_events is None,
            r.batch.max_bytes is None,
            r.batch.timeout_secs is None,
            r.request.concurrency is None,
            r.request.timeout_secs is None,
            r.request.rate_limit_duration_secs is None,
            r.request.rate_limit_num is None,
            r.request.retry_attempts is None,
            r.request.retry_max_duration_secs is None,
            r.request.retry_initial_backoff_secs is None,
    {
        DatadogMetricsConfig {
            default_namespace: None,
            endpoint: None,
            region: None,
            site: None,
            api_key,
            batch: BatchConfig::unspecified(),
            request: RequestConfig::unspecified(),
        }
    }

    /// The base domain to use for any call to the service.
    pub fn get_site(&self) -> (r: &str)
        ensures
            r@ == spec_site(self.site, self.region),
    {
        match &self.site {
            Some(s) => s.as_str(),
            None => match self.region {
                Some(Region::Eu) => "datadoghq.eu",
                _ => "datadoghq.com",
            },
        }
    }

    /// The base URI of the service API, or the configured endpoint.
    pub fn get_api_endpoint(&self) -> (r: String)
        ensures
            r@ == match self.endpoint {
                Some(e) => e@,
                None => "https://api."@ + spec_site(self.site, self.region),
            },
    {
        proof {
            reveal_strlit("https://api.");
        }
        match &self.endpoint {
            Some(e) => clone_string(e),
            None => {
                let mut s = String::from_str("https://api.");
                s.append(self.get_site());
                s
            },
        }
    }

    /// The base URI of the agent-style intake, with the version tag in
    /// the domain, or the configured endpoint.
    pub fn get_base_agent_endpoint(&self) -> (r: String)
        ensures
            r@ == spec_base_agent_endpoint(self.endpoint, self.site, self.region),
    {
        proof {
            reveal_strlit("https://");
            reveal_strlit("-vector.agent.");
        }
        match &self.endpoint {
            Some(e) => clone_string(e),
            None => {
                let mut s = String::from_str("https://");
                s.append(version_tag());
                s.append("-vector.agent.");
                s.append(self.get_site());
                s
            },
        }
    }

    /// The full intake URL for one endpoint.
    pub fn metric_endpoint_url(&self, endpoint: DatadogMetricsEndpoint) -> (r: String)
        ensures
            r@ == spec_metric_endpoint_url(self.endpoint, self.site, self.region, endpoint),
    {
        let mut s = self.get_base_agent_endpoint();
        s.append(endpoint.suffix());
        s
    }

    /// Parses and validates the three type-specific intake URIs, in the
    /// fixed order series, distributions, sketches. It succeeds exactly
    /// when the http crate accepts all three URLs; the first URL it
    /// refuses fails the build as the offending host.
    pub fn generate_metric_endpoints(&self) -> (r: Result<
        Vec<(DatadogMetricsEndpoint, http::Uri)>,
        BuildError,
    >)
        ensures
            ({
                let series = spec_metric_endpoint_url(
                    self.endpoint,
                    self.site,
                    self.region,
                    DatadogMetricsEndpoint::Series,
                );
                let distribution = spec_metric_endpoint_url(
                    self.endpoint,
                    self.site,
                    self.region,
                    DatadogMetricsEndpoint::Distribution,
                );
                let sketch = spec_metric_endpoint_url(
                    self.endpoint,
                    self.site,
                    self.region,
                    DatadogMetricsEndpoint::Sketch,
                );
                &&& (r is Ok <==> uri_parses(series) && uri_parses(distribution) && uri_parses(
                    sketch,
                ))
                &&& (r matches Ok(v) ==> {
                    &&& v@.len() == 3
                    &&& v@[0].0 == DatadogMetricsEndpoint::Series
                    &&& v@[1].0 == DatadogMetricsEndpoint::Distribution
                    &&& v@[2].0 == DatadogMetricsEndpoint::Sketch
                })
                &&& (r matches Err(BuildError::InvalidHost { host }) ==> {
                    ||| (host@ == series && !uri_parses(series))
                    ||| (host@ == distribution && uri_parses(series) && !uri_parses(distribution))
                    ||| (host@ == sketch && uri_parses(series) && uri_parses(distribution)
                        && !uri_parses(sketch))
                })
            }),
    {
        let series_url = self.metric_endpoint_url(DatadogMetricsEndpoint::Series);
        let distribution_url = self.metric_endpoint_url(DatadogMetricsEndpoint::Distribution);
        let sketch_url = self.metric_endpoint_url(DatadogMetricsEndpoint::Sketch);
        let series = match parse_uri(series_url.as_str()) {
            Ok(u) => u,
            Err(_) => {
                return Err(BuildError::InvalidHost { host: series_url });
            },
        };
        let distribution = match parse_uri(distribution_url.as_str()) {
            Ok(u) => u,
            Err(_) => {
                return Err(BuildError::InvalidHost { host: distribution_url });
            },
        };
        let sketch = match parse_uri(sketch_url.as_str()) {
            Ok(u) => u,
            Err(_) => {
                return Err(BuildError::InvalidHost { host: sketch_url });
            },
        };
        let mut out: Vec<(DatadogMetricsEndpoint, http::Uri)> = Vec::new();
        out.push((DatadogMetricsEndpoint::Series, series));
        out.push((DatadogMetricsEndpoint::Distribution, distribution));
        out.push((DatadogMetricsEndpoint::Sketch, sketch));
        Ok(out)
    }

    /// Lays out the startup healthcheck: a GET against `/api/v1/validate`
    /// with the API key in the `DD-API-KEY` header.
    pub fn build_healthcheck(&self) -> (r: HealthcheckSpec)
        ensures
            r.uri@ == (match self.endpoint {
                Some(e) => e@,
                None => "https://api."@ + spec_site(self.site, self.region),
            }) + "/api/v1/validate"@,
            r.api_key_header@ == "DD-API-KEY"@,
            r.api_key@ == self.api_key@,
    {
        proof {
            reveal_strlit("/api/v1/validate");
            reveal_strlit("DD-API-KEY");
        }
        let mut uri = self.get_api_endpoint();
        uri.append("/api/v1/validate");
        HealthcheckSpec {
            uri,
            api_key_header: String::from_str("DD-API-KEY"),
            api_key: clone_string(&self.api_key),
        }
    }
}

} // verus!
