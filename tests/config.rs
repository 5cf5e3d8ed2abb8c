use sertus::checker::Checker;
use sertus::config::{with_config, Config};
use sertus::flow::Flow;
use sertus::metrics::{route_path, Metrics, PushGateway, Server};
use sertus::pkg::version;

#[test]
fn default_config_has_no_flows() {
    let config = Config::default();
    assert!(config.flows.is_empty());
    assert_eq!(config.metrics, Metrics::Server(Server { addr: "127.0.0.1:9296".to_string(), bucket: None }));
}

#[test]
fn add_flow_appends() {
    let mut config = Config::default();
    config.add_flow(Flow::new("one"));
    config.add_flow(Flow::new("two"));
    let names: Vec<String> = config.flows.iter().map(|f| f.name.clone()).collect();
    assert_eq!(names, vec!["one", "two"]);
    assert_eq!(with_config(&config, |c| c.flows.len()), 2);
}

#[test]
fn starter_config() {
    let config = sertus::init::default();
    assert_eq!(config.flows.len(), 1);
    let flow = &config.flows[0];
    assert_eq!(flow.name, "flow 1");
    assert_eq!(flow.tasks.len(), 2);
    assert_eq!(flow.tasks[0].name, "check process");
    assert!(matches!(&flow.tasks[0].checker, Checker::ProcessChecker(p) if p.prefix == "process prefix"));
    assert_eq!(flow.tasks[1].name, "check script");
    assert!(matches!(&flow.tasks[1].checker, Checker::ScriptChecker(s) if s.path == "~/.sertus/scripts/script.sh"));
}

#[test]
fn sink_defaults() {
    let push = PushGateway::default();
    assert_eq!(push.endpoint, "http://127.0.0.1:9091/metrics/job/sertus/instance/127.0.0.1");
    assert_eq!(push.push_interval(), 10);
    assert_eq!(push.idle_timeout_secs(), 60);
    let custom = PushGateway { endpoint: "http://x".to_string(), interval: None, idle_timeout: Some(5) };
    assert_eq!(custom.push_interval(), 10);
    assert_eq!(custom.idle_timeout_secs(), 5);
    assert_eq!(Server::default().bucket_name(), "sertus");
    let named = Server { addr: "0.0.0.0:1".to_string(), bucket: Some("b".to_string()) };
    assert_eq!(named.bucket_name(), "b");
    assert_eq!(route_path(), "/metrics");
    let m = sertus::config::Metrics::default();
    assert_eq!(m.addr, "127.0.0.1:9296");
    assert_eq!(m.bucket, "sertus");
}

#[test]
fn version_text_layout() {
    let v = version::default("1.2.3", "main", "abc", "x86_64", "none", "today", "1.80");
    assert_eq!(
        v,
        "1.2.3\n        Git: main + abc\n        Target: x86_64\n        Features: none\n        Build: today\n        Rustc: 1.80"
    );
}
