//! Where metrics go: served for scraping, or pushed to a gateway.
use vstd::prelude::*;

verus! {

/// The metrics sink, chosen once at startup.
#[derive(Debug, Clone, PartialEq)]
pub enum Metrics {
    PushGateway(PushGateway),
    Server(Server),
}

/// Serves the metrics over HTTP at `addr`.
#[derive(Debug, Clone, PartialEq)]
pub struct Server {
    pub addr: String,
    pub bucket: Option<String>,
}

/// Pushes the metrics to `endpoint` every `interval` seconds (10 when unset); series unused
/// for `idle_timeout` seconds (60 when unset) are dropped.
#[derive(Debug, Clone, PartialEq)]
pub struct PushGateway {
    pub endpoint: String,
    pub interval: Option<u64>,
    pub idle_timeout: Option<u64>,
}

pub open spec fn default_server_addr() -> Seq<char> {
    "127.0.0.1:9296"@
}

pub open spec fn default_bucket() -> Seq<char> {
    "sertus"@
}

pub open spec fn default_endpoint() -> Seq<char> {
    "http://127.0.0.1:9091/metrics/job/sertus/instance/127.0.0.1"@
}

pub open spec fn metrics_route() -> Seq<char> {
    "/metrics"@
}

pub const DEFAULT_PUSH_INTERVAL: u64 = 10;

pub const DEFAULT_IDLE_TIMEOUT: u64 = 60;

/// The path under which the server answers.
pub fn route_path() -> (r: String)
    ensures
        r@ == metrics_route(),
{
    "/metrics".to_owned()
}

impl Default for Server {
    fn default() -> (r: Self)
        ensures
            r.addr@ == default_server_addr(),
            r.bucket is None,
    {
        Server { addr: "127.0.0.1:9296".to_owned(), bucket: None }
    }
}

impl Default for PushGateway {
    fn default() -> (r: Self)
        ensures
            r.endpoint@ == default_endpoint(),
            r.interval == Some(DEFAULT_PUSH_INTERVAL),
            r.idle_timeout == Some(DEFAULT_IDLE_TIMEOUT),
    {
        PushGateway {
            endpoint: "http://127.0.0.1:9091/metrics/job/sertus/instance/127.0.0.1".to_owned(),
            interval: Some(DEFAULT_PUSH_INTERVAL),
            idle_timeout: Some(DEFAULT_IDLE_TIMEOUT),
        }
    }
}

impl Default for Metrics {
    fn default() -> (r: Self)
        ensures
            r matches Metrics::Server(s) && s.addr@ == default_server_addr() && s.bucket is None,
    {
        Metrics::Server(Server::default())
    }
}

impl Server {
    /// The prefix of the metric names that get histogram buckets: `bucket`, or `sertus`.
    pub fn bucket_name(&self) -> (r: String)
        ensures
            r@ == match self.bucket {
                Some(b) => b@,
                None => default_bucket(),
            },
    {
        match &self.bucket {
            Some(b) => b.clone(),
            None => "sertus".to_owned(),
        }
    }
}

impl PushGateway {
    /// Seconds between pushes.
    pub fn push_interval(&self) -> (r: u64)
        ensures
            r == match self.interval {
                Some(n) => n,
                None => DEFAULT_PUSH_INTERVAL,
            },
    {
        match self.interval {
            Some(n) => n,
            None => DEFAULT_PUSH_INTERVAL,
        }
    }

    /// Seconds after which an unused series is dropped.
    pub fn idle_timeout_secs(&self) -> (r: u64)
        ensures
            r == match self.idle_timeout {
                Some(n) => n,
                None => DEFAULT_IDLE_TIMEOUT,
            },
    {
        match self.idle_timeout {
            Some(n) => n,
            None => DEFAULT_IDLE_TIMEOUT,
        }
    }
}

} // verus!
