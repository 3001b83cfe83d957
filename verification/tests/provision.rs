use pifrost::config::{HardeningConfig, NodeInfo, RancherConfig, Rke2Config};
use pifrost::plan::Step;
use pifrost::provision::{
    add_tmpfs_mounts, apply_hardening, apply_sysctl_k8s, configure_journald_volatile,
    deploy_rancher, disable_auditd, disable_swap, install_rke2, node_info_hostname,
    provision_single_node, provision_single_node_agent, server_config, set_hostname, set_noatime,
    with_sudo,
};

fn node(hostname: &str) -> NodeInfo {
    NodeInfo {
        hostname: hostname.to_string(),
        host: "192.168.1.10".to_string(),
        port: 22,
        user: "pi".to_string(),
        auth: "password".to_string(),
        key_path: String::new(),
        password: "pw".to_string(),
    }
}

fn rke2(extra: &str) -> Rke2Config {
    Rke2Config { version: "v1.32.3+rke2r1".to_string(), extra_args: extra.to_string() }
}

fn commands(steps: &[Step<String>]) -> Vec<String> {
    let mut v = Vec::new();
    for s in steps {
        match s {
            Step::Exec(c) | Step::Attempt(c) | Step::Capture(c) | Step::Watch(c) => {
                v.push(c.clone())
            }
            Step::Probe { command, .. }
            | Step::Check { command, .. }
            | Step::Fetch { command, .. } => v.push(command.clone()),
            _ => {}
        }
    }
    v
}

fn uploads(steps: &[Step<String>]) -> Vec<(String, String)> {
    let mut v = Vec::new();
    for s in steps {
        if let Step::Upload { content, remote } = s {
            v.push((content.clone(), remote.clone()));
        }
    }
    v
}

#[test]
fn sudo_is_fed_the_password() {
    assert_eq!(with_sudo(&node(""), "ls"), "echo 'pw' | sudo -S ls");
}

#[test]
fn hostnames() {
    assert_eq!(node_info_hostname(&node("ctrl-01"), "server"), "ctrl-01");
    assert_eq!(node_info_hostname(&node(""), "server"), "pifrost-server-192-168-1-10");
    let steps = set_hostname("n1", &node(""));
    assert_eq!(commands(&steps), vec!["echo 'pw' | sudo -S hostnamectl set-hostname n1"]);
}

#[test]
fn the_journal_is_kept_in_memory() {
    let steps = configure_journald_volatile(&node(""));
    let up = uploads(&steps);
    assert_eq!(up.len(), 1);
    assert!(up[0].0.contains("Storage=volatile"));
    assert_eq!(up[0].1, "/tmp/99-pifrost-journald.conf");
    assert!(commands(&steps).iter().any(|c| c.ends_with("systemctl restart systemd-journald")));
}

#[test]
fn directories_are_mounted_in_memory() {
    let steps = add_tmpfs_mounts(&node(""));
    let all = commands(&steps);
    assert_eq!(all.len(), 12);
    assert_eq!(all[0], "grep -q ' /var/log ' /etc/fstab");
    assert_eq!(
        all[1],
        "echo 'pw' | sudo -S bash -c \"echo 'tmpfs /var/log tmpfs defaults,noatime,mode=0755,size=100M 0 0' >> /etc/fstab\""
    );
    assert_eq!(all[7], "echo 'pw' | sudo -S mount /tmp");
    assert_eq!(all[8], "grep -q ' /var/tmp ' /etc/fstab");
}

#[test]
fn hardening_follows_its_switches() {
    let n = node("");
    let all = apply_hardening(&HardeningConfig::default(), &n);
    let whole = configure_journald_volatile(&n).len()
        + disable_auditd(&n).len()
        + add_tmpfs_mounts(&n).len()
        + set_noatime(&n).len()
        + disable_swap(&n).len()
        + apply_sysctl_k8s(&n).len();
    assert_eq!(all.len(), whole);
    let none = HardeningConfig { zero_logs: false, no_fs_bloat: false, disable_swap: false };
    let least = apply_hardening(&none, &n);
    assert_eq!(format!("{:?}", least), format!("{:?}", apply_sysctl_k8s(&n)));
    let swap = HardeningConfig { zero_logs: false, no_fs_bloat: false, disable_swap: true };
    assert_eq!(
        apply_hardening(&swap, &n).len(),
        disable_swap(&n).len() + apply_sysctl_k8s(&n).len()
    );
}

#[test]
fn servers_are_configured() {
    assert_eq!(
        server_config(&rke2(""), None, false),
        "token: pifrost-cluster-token\nembedded-registry: true\nwrite-kubeconfig-mode: \"0644\""
    );
    assert_eq!(
        server_config(&rke2("a: b"), Some("server: x\ntoken: t"), true),
        "token: pifrost-cluster-token\nembedded-registry: true\nwrite-kubeconfig-mode: \"0644\"\nnode-taint: []\nserver: x\ntoken: t\na: b"
    );
}

#[test]
fn rke2_is_installed_once() {
    let steps = install_rke2(&rke2(""), "agent", "cfg", &node(""));
    match &steps[0] {
        Step::Probe { command, wanted, skip } => {
            assert_eq!(command, "test -f '/usr/local/bin/rke2'");
            assert!(!wanted);
            assert_eq!(*skip, 3);
        }
        other => panic!("{:?}", other),
    }
    let all = commands(&steps);
    assert_eq!(
        all[1],
        "echo 'pw' | sudo -S bash -c 'curl -sfL https://get.rke2.io | INSTALL_RKE2_TYPE=agent INSTALL_RKE2_VERSION=v1.32.3+rke2r1 sh -'"
    );
    assert!(all.contains(&"systemctl is-enabled rke2-agent".to_string()));
    let server = commands(&install_rke2(&rke2(""), "server", "cfg", &node("")));
    assert_eq!(
        server[1],
        "echo 'pw' | sudo -S bash -c 'curl -sfL https://get.rke2.io | INSTALL_RKE2_VERSION=v1.32.3+rke2r1 sh -'"
    );
    assert_eq!(
        uploads(&steps),
        vec![("cfg".to_string(), "/tmp/rke2-config.yaml".to_string())]
    );
}

#[test]
fn a_node_is_made_a_server() {
    let steps = provision_single_node(
        &HardeningConfig::default(),
        &rke2(""),
        None,
        &node(""),
        true,
    );
    assert!(matches!(&steps[0], Step::Say(s) if s == "    hardening node..."));
    let up = uploads(&steps);
    let config = &up[up.len() - 1];
    assert!(config.0.ends_with("node-taint: []"));
    assert!(commands(&steps)
        .iter()
        .any(|c| c.ends_with("set-hostname pifrost-server-192-168-1-10")));
}

#[test]
fn a_node_is_made_a_worker() {
    let steps = provision_single_node_agent(
        &HardeningConfig::default(),
        &rke2("x: 1"),
        "server: https://h:9345\ntoken: t",
        &node(""),
    );
    let up = uploads(&steps);
    assert_eq!(up[up.len() - 1].0, "server: https://h:9345\ntoken: t\nx: 1");
    assert!(commands(&steps)
        .iter()
        .any(|c| c.ends_with("set-hostname pifrost-worker-192-168-1-10")));
    assert!(commands(&steps).iter().any(|c| c.ends_with("systemctl start rke2-agent")));
}

#[test]
fn rancher_is_deployed() {
    let rancher = RancherConfig { deploy: true, hostname: "r.local".to_string() };
    let steps = deploy_rancher(&rancher, &node(""));
    let all = commands(&steps);
    assert_eq!(all[0], "command -v helm");
    assert_eq!(
        all[1],
        "curl -sfL https://raw.githubusercontent.com/helm/helm/main/scripts/get-helm-3 -o /home/pi/get-helm.sh"
    );
    assert_eq!(all[2], "test -f /home/pi/get-helm.sh");
    let install = &all[all.len() - 1];
    assert!(install.contains("--set hostname=r.local --set bootstrapPassword=admin"));
    assert!(matches!(steps.last(), Some(Step::Say(s)) if s == "    Rancher UI: https://r.local"));
}
