//! The plans by which a node is hardened and given RKE2, and by which Rancher is
//! deployed.

use vstd::prelude::*;
use crate::config::{HardeningConfig, NodeInfo, RancherConfig, Rke2Config};
use crate::plan::{
    append_step, extend, is_block, lemma_blocks, plan_of, say, shields, start_with, Step,
};
use crate::ssh::{file_test, file_test_command};
use crate::text::{concat2, concat3, join, joined, replace_char, replaced, same, starts_with, texts};

verus! {

/// A command that is run with the rights of the administrator, who is asked for
/// the node's password.
pub open spec fn sudo(node: NodeInfo, cmd: Seq<char>) -> Seq<char> {
    "echo '"@ + node.password@ + "' | sudo -S "@ + cmd
}

/// Helper to wrap a command with password-fed sudo
pub fn with_sudo(node: &NodeInfo, cmd: &str) -> (r: String)
    ensures
        r@ == sudo(*node, cmd@),
{
    let mut r = "echo '".to_string();
    r.append(node.password.as_str());
    r.append("' | sudo -S ");
    r.append(cmd);
    r
}

fn exec_sudo(node: &NodeInfo, cmd: &str) -> (r: Step<String>)
    ensures
        r@ == Step::<Seq<char>>::Exec(sudo(*node, cmd@)),
{
    Step::Exec(with_sudo(node, cmd))
}

/// The settings that keep the journal in memory.
pub const JOURNALD_CONF: &'static str =
    "[Journal]\nStorage=volatile\nRuntimeMaxUse=100M\nMaxRetentionSec=1day\nForwardToSyslog=no\nSystemMaxUse=0\n";

/// The kernel settings that Kubernetes needs.
pub const SYSCTL_CONF: &'static str =
    "net.bridge.bridge-nf-call-iptables=1\nnet.ipv4.ip_forward=1\nnet.ipv6.conf.all.forwarding=1\nkernel.panic=10\nkernel.panic_on_oops=1\n";

/// The steps that keep the journal in memory.
pub open spec fn journald_steps(node: NodeInfo) -> Seq<Step<Seq<char>>> {
    seq![
        Step::Exec(sudo(node, "mkdir -p /etc/systemd/journald.conf.d"@)),
        Step::Upload { content: JOURNALD_CONF@, remote: "/tmp/99-pifrost-journald.conf"@ },
        Step::Exec(
            sudo(
                node,
                "mv /tmp/99-pifrost-journald.conf /etc/systemd/journald.conf.d/99-pifrost.conf"@,
            ),
        ),
        Step::Exec(sudo(node, "systemctl restart systemd-journald"@)),
        Step::Say("    journald → volatile"@),
    ]
}

/// The steps that keep the journal in memory.
pub fn configure_journald_volatile(node: &NodeInfo) -> (r: Vec<Step<String>>)
    ensures
        plan_of(r@) == journald_steps(*node),
{
    let mut p: Vec<Step<String>> = Vec::new();
    p.push(exec_sudo(node, "mkdir -p /etc/systemd/journald.conf.d"));
    // To /tmp first, then with sudo to the protected location.
    p.push(
        Step::Upload {
            content: JOURNALD_CONF.to_string(),
            remote: "/tmp/99-pifrost-journald.conf".to_string(),
        },
    );
    p.push(
        exec_sudo(
            node,
            "mv /tmp/99-pifrost-journald.conf /etc/systemd/journald.conf.d/99-pifrost.conf",
        ),
    );
    p.push(exec_sudo(node, "systemctl restart systemd-journald"));
    p.push(say("    journald → volatile"));
    assert(plan_of(p@) =~= journald_steps(*node));
    p
}

/// The steps that switch off auditd where it is enabled.
pub open spec fn auditd_steps(node: NodeInfo) -> Seq<Step<Seq<char>>> {
    seq![
        Step::Probe {
            command: "systemctl is-enabled auditd 2>/dev/null"@,
            wanted: true,
            skip: 2,
        },
        Step::Exec(sudo(node, "systemctl stop auditd && systemctl disable auditd"@)),
        Step::Say("    auditd → disabled"@),
    ]
}

/// The steps that switch off auditd where it is enabled.
pub fn disable_auditd(node: &NodeInfo) -> (r: Vec<Step<String>>)
    ensures
        plan_of(r@) == auditd_steps(*node),
{
    let mut p: Vec<Step<String>> = Vec::new();
    p.push(
        Step::Probe {
            command: "systemctl is-enabled auditd 2>/dev/null".to_string(),
            wanted: true,
            skip: 2,
        },
    );
    p.push(exec_sudo(node, "systemctl stop auditd && systemctl disable auditd"));
    p.push(say("    auditd → disabled"));
    assert(plan_of(p@) =~= auditd_steps(*node));
    p
}

/// The steps that mount a directory in memory, now and at each start, unless
/// that is already set up.
pub open spec fn tmpfs_steps(node: NodeInfo, dir: Seq<char>, opts: Seq<char>) -> Seq<
    Step<Seq<char>>,
> {
    seq![
        Step::Probe {
            command: "grep -q ' "@ + dir + " ' /etc/fstab"@,
            wanted: false,
            skip: 3,
        },
        Step::Exec(
            sudo(
                node,
                "bash -c \"echo 'tmpfs "@ + dir + " tmpfs "@ + opts + " 0 0' >> /etc/fstab\""@,
            ),
        ),
        Step::Exec(sudo(node, "mkdir -p "@ + dir)),
        Step::Exec(sudo(node, "mount "@ + dir)),
    ]
}

fn add_tmpfs_mount(node: &NodeInfo, dir: &str, opts: &str) -> (r: Vec<Step<String>>)
    ensures
        plan_of(r@) == tmpfs_steps(*node, dir@, opts@),
{
    let mut p: Vec<Step<String>> = Vec::new();
    p.push(
        Step::Probe {
            command: concat3("grep -q ' ", dir, " ' /etc/fstab"),
            wanted: false,
            skip: 3,
        },
    );
    // The redirection has to happen within the sudo context.
    let mut line = "bash -c \"echo 'tmpfs ".to_string();
    line.append(dir);
    line.append(" tmpfs ");
    line.append(opts);
    line.append(" 0 0' >> /etc/fstab\"");
    p.push(exec_sudo(node, line.as_str()));
    p.push(exec_sudo(node, concat2("mkdir -p ", dir).as_str()));
    p.push(exec_sudo(node, concat2("mount ", dir).as_str()));
    assert(plan_of(p@) =~= tmpfs_steps(*node, dir@, opts@));
    p
}

/// The steps that mount the directories for logs and temporary files in memory.
pub open spec fn tmpfs_mounts_steps(node: NodeInfo) -> Seq<Step<Seq<char>>> {
    tmpfs_steps(node, "/var/log"@, "defaults,noatime,mode=0755,size=100M"@) + tmpfs_steps(
        node,
        "/tmp"@,
        "defaults,noatime,mode=1777,size=500M"@,
    ) + tmpfs_steps(node, "/var/tmp"@, "defaults,noatime,mode=1777,size=100M"@) + seq![
        Step::Say("    tmpfs → /var/log, /tmp, /var/tmp"@),
    ]
}

/// The steps that mount the directories for logs and temporary files in memory.
pub fn add_tmpfs_mounts(node: &NodeInfo) -> (r: Vec<Step<String>>)
    ensures
        plan_of(r@) == tmpfs_mounts_steps(*node),
{
    let mut p = add_tmpfs_mount(node, "/var/log", "defaults,noatime,mode=0755,size=100M");
    extend(&mut p, add_tmpfs_mount(node, "/tmp", "defaults,noatime,mode=1777,size=500M"));
    extend(&mut p, add_tmpfs_mount(node, "/var/tmp", "defaults,noatime,mode=1777,size=100M"));
    append_step(&mut p, say("    tmpfs → /var/log, /tmp, /var/tmp"));
    p
}

/// The command that keeps the root file system without access times at each
/// start.
pub const NOATIME_FSTAB: &'static str =
    "sed -i 's/  errors=remount-ro/  noatime,errors=remount-ro/' /etc/fstab";

/// The steps that mount the root file system without access times.
pub open spec fn noatime_steps(node: NodeInfo) -> Seq<Step<Seq<char>>> {
    seq![
        Step::Attempt(sudo(node, "mount -o remount,noatime /"@)),
        Step::Attempt(sudo(node, NOATIME_FSTAB@)),
        Step::Say("    root → noatime"@),
    ]
}

/// The steps that mount the root file system without access times.
pub fn set_noatime(node: &NodeInfo) -> (r: Vec<Step<String>>)
    ensures
        plan_of(r@) == noatime_steps(*node),
{
    let mut p: Vec<Step<String>> = Vec::new();
    p.push(Step::Attempt(with_sudo(node, "mount -o remount,noatime /")));
    p.push(Step::Attempt(with_sudo(node, NOATIME_FSTAB)));
    p.push(say("    root → noatime"));
    assert(plan_of(p@) =~= noatime_steps(*node));
    p
}

/// The steps that switch off swap, now and at each start.
pub open spec fn swap_steps(node: NodeInfo) -> Seq<Step<Seq<char>>> {
    seq![
        Step::Exec(sudo(node, "swapoff -a"@)),
        Step::Exec(sudo(node, "sed -i '/swap/d' /etc/fstab"@)),
        Step::Say("    swap → disabled"@),
    ]
}

/// The steps that switch off swap, now and at each start.
pub fn disable_swap(node: &NodeInfo) -> (r: Vec<Step<String>>)
    ensures
        plan_of(r@) == swap_steps(*node),
{
    let mut p: Vec<Step<String>> = Vec::new();
    p.push(exec_sudo(node, "swapoff -a"));
    p.push(exec_sudo(node, "sed -i '/swap/d' /etc/fstab"));
    p.push(say("    swap → disabled"));
    assert(plan_of(p@) =~= swap_steps(*node));
    p
}

/// The steps that set the kernel up for Kubernetes.
pub open spec fn sysctl_steps(node: NodeInfo) -> Seq<Step<Seq<char>>> {
    seq![
        Step::Upload { content: SYSCTL_CONF@, remote: "/tmp/99-pifrost-sysctl.conf"@ },
        Step::Exec(
            sudo(node, "mv /tmp/99-pifrost-sysctl.conf /etc/sysctl.d/99-pifrost.conf"@),
        ),
        Step::Exec(sudo(node, "sysctl --system"@)),
        Step::Say("    sysctl → K8s params"@),
    ]
}

/// The steps that set the kernel up for Kubernetes.
pub fn apply_sysctl_k8s(node: &NodeInfo) -> (r: Vec<Step<String>>)
    ensures
        plan_of(r@) == sysctl_steps(*node),
{
    let mut p: Vec<Step<String>> = Vec::new();
    // To /tmp first, then with sudo to the protected location.
    p.push(
        Step::Upload {
            content: SYSCTL_CONF.to_string(),
            remote: "/tmp/99-pifrost-sysctl.conf".to_string(),
        },
    );
    p.push(
        exec_sudo(node, "mv /tmp/99-pifrost-sysctl.conf /etc/sysctl.d/99-pifrost.conf"),
    );
    p.push(exec_sudo(node, "sysctl --system"));
    p.push(say("    sysctl → K8s params"));
    assert(plan_of(p@) =~= sysctl_steps(*node));
    p
}

/// The steps of a measure that is taken, or none.
pub open spec fn if_set(set: bool, steps: Seq<Step<Seq<char>>>) -> Seq<Step<Seq<char>>> {
    if set {
        steps
    } else {
        Seq::empty()
    }
}

/// The steps that harden a node.
pub open spec fn hardening_steps(hardening: HardeningConfig, node: NodeInfo) -> Seq<
    Step<Seq<char>>,
> {
    if_set(hardening.zero_logs, journald_steps(node) + auditd_steps(node)) + if_set(
        hardening.no_fs_bloat,
        tmpfs_mounts_steps(node) + noatime_steps(node),
    ) + if_set(hardening.disable_swap, swap_steps(node)) + sysctl_steps(node)
}

/// Apply all hardening measures to a node.
pub fn apply_hardening(hardening: &HardeningConfig, node: &NodeInfo) -> (r: Vec<Step<String>>)
    ensures
        plan_of(r@) == hardening_steps(*hardening, *node),
{
    let mut p: Vec<Step<String>> = Vec::new();
    assert(plan_of(p@) =~= Seq::<Step<Seq<char>>>::empty());
    if hardening.zero_logs {
        extend(&mut p, configure_journald_volatile(node));
        extend(&mut p, disable_auditd(node));
    }
    assert(plan_of(p@) =~= if_set(
        hardening.zero_logs,
        journald_steps(*node) + auditd_steps(*node),
    ));
    let ghost logs = plan_of(p@);
    if hardening.no_fs_bloat {
        extend(&mut p, add_tmpfs_mounts(node));
        extend(&mut p, set_noatime(node));
    }
    assert(plan_of(p@) =~= logs + if_set(
        hardening.no_fs_bloat,
        tmpfs_mounts_steps(*node) + noatime_steps(*node),
    ));
    let ghost files = plan_of(p@);
    if hardening.disable_swap {
        extend(&mut p, disable_swap(node));
    }
    assert(plan_of(p@) =~= files + if_set(hardening.disable_swap, swap_steps(*node)));
    extend(&mut p, apply_sysctl_k8s(node));
    p
}

/// The name that a node is given: its own, or one made of its role and address.
pub open spec fn hostname_of(node: NodeInfo, role: Seq<char>) -> Seq<char> {
    if node.hostname@.len() > 0 {
        node.hostname@
    } else {
        "pifrost-"@ + role + "-"@ + replaced(node.host@, '.', '-')
    }
}

/// Generate a hostname for a node based on its role and address.
pub fn node_info_hostname(node: &NodeInfo, role: &str) -> (r: String)
    ensures
        r@ == hostname_of(*node, role@),
{
    if !node.hostname.as_str().is_empty() {
        node.hostname.clone()
    } else {
        let mut r = concat3("pifrost-", role, "-");
        r.append(replace_char(node.host.as_str(), '.', '-').as_str());
        r
    }
}

/// The steps that name a node.
pub open spec fn hostname_steps(node: NodeInfo, hostname: Seq<char>) -> Seq<Step<Seq<char>>> {
    seq![
        Step::Exec(sudo(node, "hostnamectl set-hostname "@ + hostname)),
        Step::Say("    hostname → "@ + hostname),
    ]
}

/// The steps that name a node.
pub fn set_hostname(hostname: &str, node: &NodeInfo) -> (r: Vec<Step<String>>)
    ensures
        plan_of(r@) == hostname_steps(*node, hostname@),
{
    let mut p: Vec<Step<String>> = Vec::new();
    p.push(exec_sudo(node, concat2("hostnamectl set-hostname ", hostname).as_str()));
    p.push(Step::Say(concat2("    hostname → ", hostname)));
    assert(plan_of(p@) =~= hostname_steps(*node, hostname@));
    p
}

/// What the installer of RKE2 is told of the role of a node.
pub open spec fn install_type(role: Seq<char>) -> Seq<char> {
    if role == "agent"@ {
        "INSTALL_RKE2_TYPE=agent "@
    } else {
        Seq::empty()
    }
}

/// The steps that see to it that RKE2 is installed.
pub open spec fn rke2_binary_steps(rke2: Rke2Config, role: Seq<char>, node: NodeInfo) -> Seq<
    Step<Seq<char>>,
> {
    seq![
        Step::Probe { command: file_test("/usr/local/bin/rke2"@), wanted: false, skip: 3 },
        Step::Say(
            "    RKE2 → installing v"@ + rke2.version@ + " ("@ + role + ")..."@,
        ),
        Step::Exec(
            sudo(
                node,
                "bash -c 'curl -sfL https://get.rke2.io | "@ + install_type(role)
                    + "INSTALL_RKE2_VERSION="@ + rke2.version@ + " sh -'"@,
            ),
        ),
        Step::Jump(1),
        Step::Say("    RKE2 → already installed"@),
    ]
}

/// The steps that write the configuration of RKE2.
pub open spec fn rke2_config_steps(config_yaml: Seq<char>, node: NodeInfo) -> Seq<
    Step<Seq<char>>,
> {
    seq![
        Step::Exec(sudo(node, "mkdir -p /etc/rancher/rke2"@)),
        Step::Say("    RKE2 config content:\n"@ + config_yaml),
        Step::Upload { content: config_yaml, remote: "/tmp/rke2-config.yaml"@ },
        Step::Exec(sudo(node, "mv /tmp/rke2-config.yaml /etc/rancher/rke2/config.yaml"@)),
        Step::Capture(sudo(node, "cat /etc/rancher/rke2/config.yaml"@)),
        Step::Report {
            heading: "    RKE2 config → written\n    Actual file content:\n"@,
            slot: 0,
        },
    ]
}

/// The steps that start the service of RKE2, and find out why if it does not
/// start.
pub open spec fn rke2_service_steps(service: Seq<char>, node: NodeInfo) -> Seq<
    Step<Seq<char>>,
> {
    seq![
        Step::Probe { command: "systemctl is-enabled "@ + service, wanted: false, skip: 2 },
        Step::Exec(sudo(node, "systemctl enable "@ + service)),
        Step::Say("    RKE2 "@ + service + " → enabled"@),
        Step::Watch(sudo(node, "systemctl start "@ + service)),
        Step::Watch(sudo(node, "systemctl is-active "@ + service)),
        Step::SkipIfHealthy(6),
        Step::Say("\n!!! RKE2 service failed to start - collecting diagnostics..."@),
        Step::Capture(sudo(node, "systemctl status "@ + service + " --no-pager"@)),
        Step::Capture(sudo(node, "journalctl -xeu "@ + service + " --no-pager -n 100"@)),
        Step::Report { heading: "\n=== Service Status ===\n"@, slot: 1 },
        Step::Report { heading: "\n=== Journal Logs (last 100 lines) ===\n"@, slot: 2 },
        Step::Abort("Failed to start "@ + service + " service"@),
        Step::Say("    RKE2 "@ + service + " → started"@),
    ]
}

/// The steps that install, configure and start RKE2.
pub open spec fn rke2_steps(
    rke2: Rke2Config,
    role: Seq<char>,
    config_yaml: Seq<char>,
    node: NodeInfo,
) -> Seq<Step<Seq<char>>> {
    rke2_binary_steps(rke2, role, node) + rke2_config_steps(config_yaml, node)
        + rke2_service_steps("rke2-"@ + role, node)
}

fn install_binary(rke2: &Rke2Config, role: &str, node: &NodeInfo) -> (r: Vec<Step<String>>)
    ensures
        plan_of(r@) == rke2_binary_steps(*rke2, role@, *node),
{
    let mut p: Vec<Step<String>> = Vec::new();
    p.push(
        Step::Probe {
            command: file_test_command("/usr/local/bin/rke2"),
            wanted: false,
            skip: 3,
        },
    );
    let mut line = concat2("    RKE2 → installing v", rke2.version.as_str());
    line.append(" (");
    line.append(role);
    line.append(")...");
    p.push(Step::Say(line));
    let type_env = if same(role, "agent") {
        "INSTALL_RKE2_TYPE=agent ".to_string()
    } else {
        String::new()
    };
    let mut install = concat2("bash -c 'curl -sfL https://get.rke2.io | ", type_env.as_str());
    install.append("INSTALL_RKE2_VERSION=");
    install.append(rke2.version.as_str());
    install.append(" sh -'");
    p.push(exec_sudo(node, install.as_str()));
    p.push(Step::Jump(1));
    p.push(say("    RKE2 → already installed"));
    assert(plan_of(p@) =~= rke2_binary_steps(*rke2, role@, *node));
    p
}

fn write_config(config_yaml: &str, node: &NodeInfo) -> (r: Vec<Step<String>>)
    ensures
        plan_of(r@) == rke2_config_steps(config_yaml@, *node),
{
    let mut p: Vec<Step<String>> = Vec::new();
    p.push(exec_sudo(node, "mkdir -p /etc/rancher/rke2"));
    p.push(Step::Say(concat2("    RKE2 config content:\n", config_yaml)));
    p.push(
        Step::Upload {
            content: config_yaml.to_string(),
            remote: "/tmp/rke2-config.yaml".to_string(),
        },
    );
    p.push(exec_sudo(node, "mv /tmp/rke2-config.yaml /etc/rancher/rke2/config.yaml"));
    p.push(Step::Capture(with_sudo(node, "cat /etc/rancher/rke2/config.yaml")));
    p.push(
        Step::Report {
            heading: "    RKE2 config → written\n    Actual file content:\n".to_string(),
            slot: 0,
        },
    );
    assert(plan_of(p@) =~= rke2_config_steps(config_yaml@, *node));
    p
}

fn start_service(service: &str, node: &NodeInfo) -> (r: Vec<Step<String>>)
    ensures
        plan_of(r@) == rke2_service_steps(service@, *node),
{
    let mut p: Vec<Step<String>> = Vec::new();
    p.push(
        Step::Probe { command: concat2("systemctl is-enabled ", service), wanted: false, skip: 2 },
    );
    p.push(exec_sudo(node, concat2("systemctl enable ", service).as_str()));
    p.push(Step::Say(concat3("    RKE2 ", service, " → enabled")));
    p.push(Step::Watch(with_sudo(node, concat2("systemctl start ", service).as_str())));
    p.push(Step::Watch(with_sudo(node, concat2("systemctl is-active ", service).as_str())));
    p.push(Step::SkipIfHealthy(6));
    p.push(say("\n!!! RKE2 service failed to start - collecting diagnostics..."));
    p.push(
        Step::Capture(
            with_sudo(node, concat3("systemctl status ", service, " --no-pager").as_str()),
        ),
    );
    p.push(
        Step::Capture(
            with_sudo(node, concat3("journalctl -xeu ", service, " --no-pager -n 100").as_str()),
        ),
    );
    p.push(Step::Report { heading: "\n=== Service Status ===\n".to_string(), slot: 1 });
    p.push(
        Step::Report {
            heading: "\n=== Journal Logs (last 100 lines) ===\n".to_string(),
            slot: 2,
        },
    );
    p.push(Step::Abort(concat3("Failed to start ", service, " service")));
    p.push(Step::Say(concat3("    RKE2 ", service, " → started")));
    assert(plan_of(p@) =~= rke2_service_steps(service@, *node));
    p
}

/// Install or verify RKE2 is present, then write config.yaml and enable the
/// service.
pub fn install_rke2(rke2: &Rke2Config, role: &str, config_yaml: &str, node: &NodeInfo) -> (r: Vec<
    Step<String>,
>)
    ensures
        plan_of(r@) == rke2_steps(*rke2, role@, config_yaml@, *node),
{
    let mut p = install_binary(rke2, role, node);
    extend(&mut p, write_config(config_yaml, node));
    extend(&mut p, start_service(concat2("rke2-", role).as_str(), node));
    p
}

/// What a shell needs to know before it can speak to the cluster.
pub const KUBE_ENV: &'static str =
    "export KUBECONFIG=/etc/rancher/rke2/rke2.yaml && export PATH=/usr/local/sbin:/usr/local/bin:/usr/sbin:/usr/bin:/sbin:/bin:/var/lib/rancher/rke2/bin";

/// Where the installer of Helm is found.
pub const HELM_INSTALLER: &'static str =
    "https://raw.githubusercontent.com/helm/helm/main/scripts/get-helm-3";

/// The commands that make Rancher's charts known to Helm.
pub const HELM_REPO: &'static str =
    " && helm repo add rancher-stable https://releases.rancher.com/server-charts/stable && helm repo update";

/// The command that creates Rancher's namespace.
pub const RANCHER_NAMESPACE: &'static str =
    " && kubectl create namespace cattle-system --dry-run=client -o yaml | kubectl apply -f -";

/// The command that succeeds where cert-manager is installed.
pub const CERT_MANAGER_TEST: &'static str = " && kubectl get ns cert-manager 2>/dev/null";

/// The command that installs cert-manager.
pub const CERT_MANAGER_APPLY: &'static str =
    " && kubectl apply -f https://github.com/cert-manager/cert-manager/releases/download/v1.16.0/cert-manager.yaml";

/// The command that waits for cert-manager.
pub const CERT_MANAGER_WAIT: &'static str =
    " && kubectl wait --for=condition=Available --timeout=120s -n cert-manager deployment/cert-manager deployment/cert-manager-webhook deployment/cert-manager-cainjector";

/// The command that installs Rancher, up to its name.
pub const RANCHER_INSTALL: &'static str =
    " && helm upgrade --install rancher rancher-stable/rancher --namespace cattle-system --create-namespace --set hostname=";

/// The rest of the command that installs Rancher.
pub const RANCHER_OPTIONS: &'static str =
    " --set bootstrapPassword=admin --set replicas=1 --wait";

/// A command that speaks to the cluster, run by the administrator.
pub open spec fn kube_command(node: NodeInfo, command: Seq<char>) -> Seq<char> {
    sudo(node, "bash -c '"@ + KUBE_ENV@ + command + "'"@)
}

fn with_kube(node: &NodeInfo, command: &str) -> (r: String)
    ensures
        r@ == kube_command(*node, command@),
{
    let mut line = concat3("bash -c '", KUBE_ENV, command);
    line.append("'");
    with_sudo(node, line.as_str())
}

/// The file that the installer of Helm is kept in.
pub open spec fn helm_script(node: NodeInfo) -> Seq<char> {
    "/home/"@ + node.user@ + "/get-helm.sh"@
}

/// The steps that see to it that Helm is installed.
pub open spec fn helm_steps(node: NodeInfo) -> Seq<Step<Seq<char>>> {
    let script = helm_script(node);
    seq![
        Step::Probe { command: "command -v helm"@, wanted: false, skip: 7 },
        Step::Say("    installing Helm..."@),
        Step::Say("    downloading Helm install script to "@ + script + "..."@),
        Step::Fetch {
            command: "curl -sfL "@ + HELM_INSTALLER@ + " -o "@ + script,
            message: "Failed to download Helm script: "@,
        },
        Step::Check {
            command: "test -f "@ + script,
            message: "Helm script was not created at "@ + script,
        },
        Step::Say("    executing Helm install script with sudo..."@),
        Step::Exec(sudo(node, "bash "@ + script)),
        Step::Exec("rm -f "@ + script),
    ]
}

fn install_helm(node: &NodeInfo) -> (r: Vec<Step<String>>)
    ensures
        plan_of(r@) == helm_steps(*node),
{
    let script = concat3("/home/", node.user.as_str(), "/get-helm.sh");
    let mut p: Vec<Step<String>> = Vec::new();
    p.push(Step::Probe { command: "command -v helm".to_string(), wanted: false, skip: 7 });
    p.push(say("    installing Helm..."));
    p.push(
        Step::Say(concat3("    downloading Helm install script to ", script.as_str(), "...")),
    );
    let mut download = concat3("curl -sfL ", HELM_INSTALLER, " -o ");
    download.append(script.as_str());
    p.push(
        Step::Fetch {
            command: download,
            message: "Failed to download Helm script: ".to_string(),
        },
    );
    p.push(
        Step::Check {
            command: concat2("test -f ", script.as_str()),
            message: concat2("Helm script was not created at ", script.as_str()),
        },
    );
    p.push(say("    executing Helm install script with sudo..."));
    p.push(exec_sudo(node, concat2("bash ", script.as_str()).as_str()));
    p.push(Step::Exec(concat2("rm -f ", script.as_str())));
    assert(plan_of(p@) =~= helm_steps(*node));
    p
}

/// The steps that deploy Rancher with Helm.
pub open spec fn rancher_chart_steps(hostname: Seq<char>, node: NodeInfo) -> Seq<
    Step<Seq<char>>,
> {
    seq![
        Step::Exec(kube_command(node, HELM_REPO@)),
        Step::Exec(kube_command(node, RANCHER_NAMESPACE@)),
        Step::Say("    installing cert-manager..."@),
        Step::Probe { command: kube_command(node, CERT_MANAGER_TEST@), wanted: false, skip: 3 },
        Step::Exec(kube_command(node, CERT_MANAGER_APPLY@)),
        Step::Say("    waiting for cert-manager..."@),
        Step::Exec(kube_command(node, CERT_MANAGER_WAIT@)),
        Step::Say("    installing Rancher..."@),
        Step::Exec(kube_command(node, RANCHER_INSTALL@ + hostname + RANCHER_OPTIONS@)),
        Step::Say("    Rancher UI: https://"@ + hostname),
    ]
}

fn install_charts(hostname: &str, node: &NodeInfo) -> (r: Vec<Step<String>>)
    ensures
        plan_of(r@) == rancher_chart_steps(hostname@, *node),
{
    let mut p: Vec<Step<String>> = Vec::new();
    p.push(Step::Exec(with_kube(node, HELM_REPO)));
    p.push(Step::Exec(with_kube(node, RANCHER_NAMESPACE)));
    p.push(say("    installing cert-manager..."));
    p.push(
        Step::Probe { command: with_kube(node, CERT_MANAGER_TEST), wanted: false, skip: 3 },
    );
    p.push(Step::Exec(with_kube(node, CERT_MANAGER_APPLY)));
    p.push(say("    waiting for cert-manager..."));
    p.push(Step::Exec(with_kube(node, CERT_MANAGER_WAIT)));
    p.push(say("    installing Rancher..."));
    let install = concat3(RANCHER_INSTALL, hostname, RANCHER_OPTIONS);
    p.push(Step::Exec(with_kube(node, install.as_str())));
    p.push(Step::Say(concat2("    Rancher UI: https://", hostname)));
    assert(plan_of(p@) =~= rancher_chart_steps(hostname@, *node));
    p
}

/// The steps that deploy Rancher.
pub open spec fn rancher_steps(rancher: RancherConfig, node: NodeInfo) -> Seq<Step<Seq<char>>> {
    helm_steps(node) + rancher_chart_steps(rancher.hostname@, node)
}

/// Deploy Rancher management UI via Helm on the first server node.
pub fn deploy_rancher(rancher: &RancherConfig, node: &NodeInfo) -> (r: Vec<Step<String>>)
    ensures
        plan_of(r@) == rancher_steps(*rancher, *node),
{
    let mut p = install_helm(node);
    extend(&mut p, install_charts(rancher.hostname.as_str(), node));
    p
}

/// The lines of a server's configuration.
pub open spec fn server_config_lines(
    rke2: Rke2Config,
    join_config: Option<Seq<char>>,
    use_as_worker: bool,
) -> Seq<Seq<char>> {
    seq![
        "token: pifrost-cluster-token"@,
        "embedded-registry: true"@,
        "write-kubeconfig-mode: \"0644\""@,
    ] + (if use_as_worker {
        seq!["node-taint: []"@]
    } else {
        Seq::empty()
    }) + (match join_config {
        Some(join) => seq![join],
        None => Seq::empty(),
    }) + (if rke2.extra_args@.len() > 0 {
        seq![rke2.extra_args@]
    } else {
        Seq::empty()
    })
}

/// The configuration of a server. `join_config` says how it joins a cluster, and
/// `use_as_worker` whether work may be scheduled on it.
pub fn server_config(rke2: &Rke2Config, join_config: Option<&str>, use_as_worker: bool) -> (r:
    String)
    ensures
        r@ == joined(
            server_config_lines(
                *rke2,
                match join_config {
                    Some(j) => Some(j@),
                    None => None,
                },
                use_as_worker,
            ),
            "\n"@,
        ),
{
    let mut lines: Vec<String> = Vec::new();
    lines.push("token: pifrost-cluster-token".to_string());
    lines.push("embedded-registry: true".to_string());
    lines.push("write-kubeconfig-mode: \"0644\"".to_string());
    if use_as_worker {
        lines.push("node-taint: []".to_string());
    }
    match join_config {
        Some(j) => {
            lines.push(j.to_string());
        },
        None => {},
    }
    if !rke2.extra_args.as_str().is_empty() {
        lines.push(rke2.extra_args.clone());
    }
    assert(texts(lines@) =~= server_config_lines(
        *rke2,
        match join_config {
            Some(j) => Some(j@),
            None => None,
        },
        use_as_worker,
    ));
    join(&lines, "\n")
}

/// The steps that make a server of a node.
pub open spec fn server_steps(
    hardening: HardeningConfig,
    rke2: Rke2Config,
    join_config: Option<Seq<char>>,
    node: NodeInfo,
    use_as_worker: bool,
) -> Seq<Step<Seq<char>>> {
    seq![Step::Say("    hardening node..."@)] + hardening_steps(hardening, node) + hostname_steps(
        node,
        hostname_of(node, "server"@),
    ) + rke2_steps(
        rke2,
        "server"@,
        joined(server_config_lines(rke2, join_config, use_as_worker), "\n"@),
        node,
    )
}

/// Provision a single server node with hardening + RKE2 server. If
/// `use_as_worker` is set, the control-plane taint is removed.
pub fn provision_single_node(
    hardening: &HardeningConfig,
    rke2: &Rke2Config,
    join_config: Option<&str>,
    node: &NodeInfo,
    use_as_worker: bool,
) -> (r: Vec<Step<String>>)
    ensures
        plan_of(r@) == server_steps(
            *hardening,
            *rke2,
            match join_config {
                Some(j) => Some(j@),
                None => None,
            },
            *node,
            use_as_worker,
        ),
{
    let config_yaml = server_config(rke2, join_config, use_as_worker);
    let mut p = start_with("    hardening node...");
    extend(&mut p, apply_hardening(hardening, node));
    extend(&mut p, set_hostname(node_info_hostname(node, "server").as_str(), node));
    extend(&mut p, install_rke2(rke2, "server", config_yaml.as_str(), node));
    p
}

/// The steps that make a worker of a node.
pub open spec fn worker_steps(
    hardening: HardeningConfig,
    rke2: Rke2Config,
    join_config: Seq<char>,
    node: NodeInfo,
) -> Seq<Step<Seq<char>>> {
    seq![Step::Say("    hardening node..."@)] + hardening_steps(hardening, node) + hostname_steps(
        node,
        hostname_of(node, "worker"@),
    ) + rke2_steps(rke2, "agent"@, join_config + "\n"@ + rke2.extra_args@, node)
}

/// Provision a single worker node with hardening + RKE2 agent.
pub fn provision_single_node_agent(
    hardening: &HardeningConfig,
    rke2: &Rke2Config,
    join_config: &str,
    node: &NodeInfo,
) -> (r: Vec<Step<String>>)
    ensures
        plan_of(r@) == worker_steps(*hardening, *rke2, join_config@, *node),
{
    let config_yaml = concat3(join_config, "\n", rke2.extra_args.as_str());
    let mut p = start_with("    hardening node...");
    extend(&mut p, apply_hardening(hardening, node));
    extend(&mut p, set_hostname(node_info_hostname(node, "worker").as_str(), node));
    extend(&mut p, install_rke2(rke2, "agent", config_yaml.as_str(), node));
    p
}

proof fn lemma_in_tmp(name: Seq<char>)
    requires
        name == "/tmp/99-pifrost-journald.conf"@ || name == "/tmp/99-pifrost-sysctl.conf"@ || name
            == "/tmp/rke2-config.yaml"@,
    ensures
        starts_with(name, "/tmp/"@),
{
    reveal_strlit("/tmp/");
    reveal_strlit("/tmp/99-pifrost-journald.conf");
    reveal_strlit("/tmp/99-pifrost-sysctl.conf");
    reveal_strlit("/tmp/rke2-config.yaml");
    assert(name.subrange(0, 5) =~= "/tmp/"@);
}

proof fn lemma_hardening_is_block(hardening: HardeningConfig, node: NodeInfo)
    ensures
        is_block(hardening_steps(hardening, node)),
{
    lemma_in_tmp("/tmp/99-pifrost-journald.conf"@);
    lemma_in_tmp("/tmp/99-pifrost-sysctl.conf"@);
    let nothing = Seq::<Step<Seq<char>>>::empty();
    assert(is_block(nothing));
    assert(is_block(journald_steps(node)));
    assert(is_block(auditd_steps(node)));
    let log = tmpfs_steps(node, "/var/log"@, "defaults,noatime,mode=0755,size=100M"@);
    let tmp = tmpfs_steps(node, "/tmp"@, "defaults,noatime,mode=1777,size=500M"@);
    let var = tmpfs_steps(node, "/var/tmp"@, "defaults,noatime,mode=1777,size=100M"@);
    let line = seq![Step::<Seq<char>>::Say("    tmpfs → /var/log, /tmp, /var/tmp"@)];
    assert(is_block(log));
    assert(is_block(tmp));
    assert(is_block(var));
    assert(is_block(line));
    lemma_blocks(log, tmp);
    lemma_blocks(log + tmp, var);
    lemma_blocks(log + tmp + var, line);
    assert(is_block(noatime_steps(node)));
    assert(is_block(swap_steps(node)));
    assert(is_block(sysctl_steps(node)));
    lemma_blocks(journald_steps(node), auditd_steps(node));
    lemma_blocks(tmpfs_mounts_steps(node), noatime_steps(node));
    let logs = if_set(hardening.zero_logs, journald_steps(node) + auditd_steps(node));
    let files = if_set(hardening.no_fs_bloat, tmpfs_mounts_steps(node) + noatime_steps(node));
    let swap = if_set(hardening.disable_swap, swap_steps(node));
    lemma_blocks(logs, files);
    lemma_blocks(logs + files, swap);
    lemma_blocks(logs + files + swap, sysctl_steps(node));
}

proof fn lemma_rke2_is_block(
    rke2: Rke2Config,
    role: Seq<char>,
    config_yaml: Seq<char>,
    node: NodeInfo,
)
    ensures
        is_block(rke2_steps(rke2, role, config_yaml, node)),
{
    lemma_in_tmp("/tmp/rke2-config.yaml"@);
    let binary = rke2_binary_steps(rke2, role, node);
    let config = rke2_config_steps(config_yaml, node);
    let service = rke2_service_steps("rke2-"@ + role, node);
    assert(is_block(binary));
    assert(is_block(config));
    assert(shields(service, 5, 11));
    assert(is_block(service));
    lemma_blocks(binary, config);
    lemma_blocks(binary + config, service);
}

/// The steps that make a server are a block.
pub proof fn lemma_server_is_block(
    hardening: HardeningConfig,
    rke2: Rke2Config,
    join_config: Option<Seq<char>>,
    node: NodeInfo,
    use_as_worker: bool,
)
    ensures
        is_block(server_steps(hardening, rke2, join_config, node, use_as_worker)),
{
    let line = seq![Step::<Seq<char>>::Say("    hardening node..."@)];
    let hard = hardening_steps(hardening, node);
    let name = hostname_steps(node, hostname_of(node, "server"@));
    let config = joined(server_config_lines(rke2, join_config, use_as_worker), "\n"@);
    lemma_hardening_is_block(hardening, node);
    lemma_rke2_is_block(rke2, "server"@, config, node);
    assert(is_block(line));
    assert(is_block(name));
    lemma_blocks(line, hard);
    lemma_blocks(line + hard, name);
    lemma_blocks(line + hard + name, rke2_steps(rke2, "server"@, config, node));
}

/// The steps that make a worker are a block.
pub proof fn lemma_worker_is_block(
    hardening: HardeningConfig,
    rke2: Rke2Config,
    join_config: Seq<char>,
    node: NodeInfo,
)
    ensures
        is_block(worker_steps(hardening, rke2, join_config, node)),
{
    let line = seq![Step::<Seq<char>>::Say("    hardening node..."@)];
    let hard = hardening_steps(hardening, node);
    let name = hostname_steps(node, hostname_of(node, "worker"@));
    let config = join_config + "\n"@ + rke2.extra_args@;
    lemma_hardening_is_block(hardening, node);
    lemma_rke2_is_block(rke2, "agent"@, config, node);
    assert(is_block(line));
    assert(is_block(name));
    lemma_blocks(line, hard);
    lemma_blocks(line + hard, name);
    lemma_blocks(line + hard + name, rke2_steps(rke2, "agent"@, config, node));
}

/// The steps that deploy Rancher are a block.
pub proof fn lemma_rancher_is_block(rancher: RancherConfig, node: NodeInfo)
    ensures
        is_block(rancher_steps(rancher, node)),
{
    assert(is_block(helm_steps(node)));
    assert(is_block(rancher_chart_steps(rancher.hostname@, node)));
    lemma_blocks(helm_steps(node), rancher_chart_steps(rancher.hostname@, node));
}

} // verus!
