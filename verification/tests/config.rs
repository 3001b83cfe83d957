use pifrost::config::{
    default_auth_method, default_cluster_name, default_key_path, default_port,
    default_rancher_hostname, default_rke2_version, default_ssh_user, default_true, ClusterConfig,
    HardeningConfig, NodeConfig, NodeInfo, RancherConfig, Rke2Config, TEMPLATE,
};

fn node(host: &str) -> NodeInfo {
    NodeInfo {
        hostname: String::new(),
        host: host.to_string(),
        port: 22,
        user: "root".to_string(),
        auth: "key".to_string(),
        key_path: "/k".to_string(),
        password: String::new(),
    }
}

#[test]
fn defaults() {
    assert_eq!(default_auth_method(), "key");
    assert_eq!(default_port(), 22);
    assert_eq!(default_ssh_user(), "root");
    assert_eq!(default_cluster_name(), "pifrost-cluster");
    assert_eq!(default_rke2_version(), "v1.32.3+rke2r1");
    assert_eq!(default_rancher_hostname(), "rancher.pifrost.local");
    assert!(default_true());
    let rke2 = Rke2Config::default();
    assert_eq!(rke2.version, "v1.32.3+rke2r1");
    assert_eq!(rke2.extra_args, "");
    let rancher = RancherConfig::default();
    assert!(rancher.deploy);
    assert_eq!(rancher.hostname, "rancher.pifrost.local");
    let hardening = HardeningConfig::default();
    assert!(hardening.zero_logs && hardening.no_fs_bloat && hardening.disable_swap);
}

#[test]
fn the_key_lies_in_the_home_directory() {
    let home = Some("/home/pi".to_string());
    let profile = Some("C:\\Users\\pi".to_string());
    assert_eq!(
        default_key_path(home.clone(), profile.clone(), '/'),
        "/home/pi/.ssh/id_rsa"
    );
    assert_eq!(default_key_path(None, profile, '\\'), "C:\\Users\\pi\\.ssh\\id_rsa");
    assert_eq!(default_key_path(None, None, '/'), "~/.ssh/id_rsa");
    assert_eq!(default_key_path(Some("/".to_string()), None, '/'), "/.ssh/id_rsa");
    assert_eq!(default_key_path(Some(String::new()), None, '/'), ".ssh/id_rsa");
    assert_eq!(default_key_path(Some("C:".to_string()), None, '\\'), "C:.ssh\\id_rsa");
}

#[test]
fn the_key_path_is_joined_as_std_does() {
    for home in ["/home/pi", "/home/pi/", "/", "", "rel", "a b", "~"] {
        let joined = std::path::Path::new(home).join(".ssh").join("id_rsa");
        assert_eq!(
            default_key_path(Some(home.to_string()), None, '/'),
            joined.display().to_string()
        );
    }
}

#[test]
fn nodes_are_counted() {
    let cfg = NodeConfig {
        cluster: ClusterConfig {
            name: "c".to_string(),
            use_servers_as_workers: false,
            server_nodes: vec![node("a"), node("b")],
            worker_nodes: vec![node("w")],
        },
        rke2: Rke2Config::default(),
        hardening: HardeningConfig::default(),
        rancher: RancherConfig::default(),
    };
    assert_eq!(cfg.total_nodes(), 3);
    let copy = cfg.clone();
    assert_eq!(copy.total_nodes(), 3);
    assert_eq!(copy.cluster.server_nodes[1].host, "b");
    assert_eq!(copy.cluster.worker_nodes[0].key_path, "/k");
}

#[test]
fn the_template_is_valid_toml() {
    let table: toml::Table = toml::from_str(TEMPLATE).unwrap();
    let cluster = table["cluster"].as_table().unwrap();
    assert_eq!(cluster["name"].as_str(), Some("my-cluster"));
    assert_eq!(cluster["use_servers_as_workers"].as_bool(), Some(false));
    let servers = cluster["server_nodes"].as_array().unwrap();
    let workers = cluster["worker_nodes"].as_array().unwrap();
    assert_eq!(servers.len(), 3);
    assert_eq!(workers.len(), 2);
    assert_eq!(servers[2]["hostname"].as_str(), Some("ctrl-03"));
    assert_eq!(workers[1]["host"].as_str(), Some("192.168.1.21"));
    assert_eq!(table["rke2"]["version"].as_str(), Some("v1.32.3+rke2r1"));
    assert_eq!(table["hardening"]["zero_logs"].as_bool(), Some(true));
    assert_eq!(table["rancher"]["hostname"].as_str(), Some("rancher.mycluster.local"));
}
