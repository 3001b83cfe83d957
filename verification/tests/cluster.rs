use pifrost::cluster::{join_config, provision_cluster, provision_title, NoServers};
use pifrost::config::{
    ClusterConfig, HardeningConfig, NodeConfig, NodeInfo, RancherConfig, Rke2Config,
};
use pifrost::plan::{Action, Reply};
use pifrost::ssh::CommandOutput;

fn node(host: &str) -> NodeInfo {
    NodeInfo {
        hostname: String::new(),
        host: host.to_string(),
        port: 22,
        user: "root".to_string(),
        auth: "key".to_string(),
        key_path: "/k".to_string(),
        password: String::new(),
    }
}

fn config(servers: &[&str], workers: &[&str], deploy: bool) -> NodeConfig {
    NodeConfig {
        cluster: ClusterConfig {
            name: "test".to_string(),
            use_servers_as_workers: false,
            server_nodes: servers.iter().map(|h| node(h)).collect(),
            worker_nodes: workers.iter().map(|h| node(h)).collect(),
        },
        rke2: Rke2Config::default(),
        hardening: HardeningConfig::default(),
        rancher: RancherConfig { deploy, hostname: "r.local".to_string() },
    }
}

struct Run {
    visited: Vec<String>,
    commands: Vec<(String, String)>,
    said: Vec<String>,
    result: Result<(), String>,
}

fn run(cfg: &NodeConfig, rancher_only: bool, fail_on: &str) -> Run {
    let mut p = provision_cluster(cfg, rancher_only).unwrap();
    let mut r = Run { visited: Vec::new(), commands: Vec::new(), said: Vec::new(), result: Ok(()) };
    loop {
        let reply = match p.action() {
            Action::Run { node, command } => {
                let host = p.node(node).host.clone();
                let call = p.call(node, &command);
                assert_eq!(call.args.last().unwrap(), &command);
                assert!(call.args.contains(&format!("root@{}", host)));
                if command == "echo connected" {
                    r.visited.push(host.clone());
                }
                let token = command.contains("node-token");
                let code = if !fail_on.is_empty() && command.contains(fail_on) { 1 } else { 0 };
                r.commands.push((host, command));
                let stdout = if token { "K10::server:tok\n" } else { "" };
                Reply::Output(CommandOutput::new(
                    stdout.to_string(),
                    String::new(),
                    Some(code),
                ))
            }
            Action::Say(s) | Action::Announce(s) => {
                r.said.push(s);
                Reply::Done
            }
            Action::Sleep(_) | Action::Pass => Reply::Done,
            Action::Finished => return r,
            Action::Failed(e) => {
                r.result = Err(e);
                return r;
            }
        };
        p.advance(reply);
    }
}

#[test]
fn how_nodes_join() {
    assert_eq!(join_config("10.0.0.1", "t"), "server: https://10.0.0.1:9345\ntoken: t");
}

#[test]
fn a_cluster_needs_a_server() {
    let cfg = config(&[], &["w"], true);
    assert!(provision_cluster(&cfg, false).is_err());
    assert!(provision_cluster(&cfg, true).is_err());
    assert_eq!(
        NoServers.message(),
        "At least one server (control-plane) node is required"
    );
}

#[test]
fn nodes_are_visited_in_order() {
    let cfg = config(&["s1", "s2", "s3"], &["w1", "w2"], true);
    let r = run(&cfg, false, "");
    assert_eq!(r.result, Ok(()));
    assert_eq!(r.visited, vec!["s1", "s2", "s3", "w1", "w2", "s1"]);
    assert_eq!(
        r.said[0],
        ">>> Provisioning cluster 'test' (5 nodes: 3 servers + 2 workers)"
    );
    assert!(r.said.contains(&"    join token obtained".to_string()));
    assert!(r.said.contains(&"\n--- Joining server 2/3 (s2) ---".to_string()));
    assert!(r.said.contains(&"\n--- Provisioning worker 2/2 (w2) ---".to_string()));
    assert_eq!(
        r.said.last().unwrap(),
        "  Rancher UI:    https://r.local (user: admin / password: admin)"
    );
}

#[test]
fn nodes_join_with_the_token_of_the_first_server() {
    let cfg = config(&["s1", "s2"], &["w1"], false);
    let r = run(&cfg, false, "");
    let join = "server: https://s1:9345\ntoken: tok";
    for host in ["s2", "w1"] {
        assert!(r
            .commands
            .iter()
            .any(|(h, c)| h == host && c.contains("rke2-config.yaml") && c.contains(join)));
    }
    assert!(!r.commands.iter().any(|(h, c)| h == "s1" && c.contains(join)));
    assert_eq!(r.visited, vec!["s1", "s2", "w1"]);
    assert!(!r.commands.iter().any(|(_, c)| c.contains("helm")));
}

#[test]
fn only_rancher_is_deployed() {
    let cfg = config(&["s1", "s2"], &["w1"], false);
    let r = run(&cfg, true, "");
    assert_eq!(r.result, Ok(()));
    assert_eq!(r.visited, vec!["s1"]);
    assert!(r.said.contains(&"✓ Rancher deployment complete!".to_string()));
}

#[test]
fn files_are_written_where_temporary_files_go() {
    let cfg = config(&["s1"], &["w1"], true);
    let r = run(&cfg, false, "");
    for (_, c) in r.commands.iter().filter(|(_, c)| c.contains("PIFROST_EOF")) {
        assert!(c.starts_with("mkdir -p \"$(dirname '/tmp/"));
    }
}

#[test]
fn provisioning_stops_at_a_failure() {
    let cfg = config(&["s1", "s2"], &["w1"], true);
    let r = run(&cfg, false, "mkdir -p /etc/rancher/rke2");
    assert!(r.result.unwrap_err().starts_with("Command exited with code 1:"));
    assert_eq!(r.visited, vec!["s1"]);
    let refused = run(&cfg, false, "echo connected");
    assert_eq!(refused.result, Err("Failed to connect to root@s1\nstdout: \nstderr: ".to_string()));
    let stuck = run(&cfg, false, "systemctl is-active rke2-server");
    assert_eq!(stuck.result, Err("Failed to start rke2-server service\nstdout: \nstderr: ".to_string()));
}

#[test]
fn titles() {
    let cfg = config(&["s1"], &[], true);
    assert_eq!(provision_title(&cfg, false), ">>> Provisioning cluster 'test'...");
    assert_eq!(provision_title(&cfg, true), ">>> Deploying Rancher dashboard only...");
}
