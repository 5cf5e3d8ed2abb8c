//! The configuration: the metrics sink and the flows to run.
use vstd::prelude::*;
use crate::flow::Flow;
use crate::metrics::{default_bucket, default_server_addr, Server};

verus! {

#[derive(Debug, Clone)]
pub struct Config {
    pub metrics: crate::metrics::Metrics,
    pub flows: Vec<Flow>,
}

/// An address and a bucket name for the served metrics.
#[derive(Debug, Clone, PartialEq)]
pub struct Metrics {
    pub addr: String,
    pub bucket: String,
}

impl Default for Metrics {
    fn default() -> (r: Self)
        ensures
            r.addr@ == default_server_addr(),
            r.bucket@ == default_bucket(),
    {
        Metrics { addr: "127.0.0.1:9296".to_owned(), bucket: "sertus".to_owned() }
    }
}

impl Default for Config {
    /// No flows; metrics served at the default address.
    fn default() -> (r: Self)
        ensures
            r.flows@.len() == 0,
            r.metrics matches crate::metrics::Metrics::Server(s) && s.addr@
                == default_server_addr() && s.bucket is None,
    {
        Config { metrics: crate::metrics::Metrics::Server(Server::default()), flows: Vec::new() }
    }
}

impl Config {
    /// Appends a flow.
    pub fn add_flow(&mut self, flow: Flow)
        ensures
            final(self).flows@ == old(self).flows@.push(flow),
            final(self).metrics == old(self).metrics,
    {
        self.flows.push(flow);
    }
}

/// Calls `f` on the configuration and returns what it returns.
pub fn with_config<T, F: FnOnce(&Config) -> T>(config: &Config, f: F) -> (r: T)
    requires
        f.requires((config,)),
    ensures
        f.ensures((config,), r),
{
    f(config)
}

} // verus!
