//! What the plans for a node do: which commands they run, in which order and
//! under which conditions, whatever the commands give back.

use vstd::prelude::*;
use crate::config::{HardeningConfig, NodeInfo, RancherConfig, Rke2Config};
use crate::course::{
    all_succeed, answered, as_far, at, begins, commands, does, end, ends_well, is_direct,
    lemma_does_both, lemma_does_nothing, lemma_jump, lemma_may, lemma_must, lemma_next,
    lemma_no_more, lemma_probe, lemma_quiet, next_command, runs, succeeds, Answers,
};
use crate::plan::{ProgressView, Step};
use crate::provision::{
    auditd_steps, hardening_steps, helm_steps, hostname_of, hostname_steps, if_set, journald_steps,
    kube_command, noatime_steps, rancher_chart_steps, rancher_steps, rke2_binary_steps,
    rke2_config_steps, rke2_service_steps, rke2_steps, server_config_lines, server_steps, sudo,
    swap_steps, sysctl_steps, tmpfs_mounts_steps, tmpfs_steps, worker_steps, JOURNALD_CONF,
    SYSCTL_CONF,
};
use crate::ssh::{file_test, upload_text};
use crate::text::{contains, joined, occurs_at, replaced};

verus! {

/// Swap is switched off now, by `swapoff -a`, and at each start, by deleting the
/// lines for swap from the table of file systems; nothing else is run, so that no
/// command switches swap on.
pub proof fn lemma_swap_is_switched_off(p: ProgressView, node: NodeInfo, answers: Answers)
    requires
        begins(p, swap_steps(node)),
    ensures
        runs(
            p,
            answers,
            seq![sudo(node, "swapoff -a"@), sudo(node, "sed -i '/swap/d' /etc/fstab"@)],
        ),
{
    let list = seq![sudo(node, "swapoff -a"@), sudo(node, "sed -i '/swap/d' /etc/fstab"@)];
    assert(is_direct(p.steps));
    assert(p == at(p, 0));
    lemma_must(p, 0, list[0], answers);
    lemma_must(p, 1, list[1], answers);
    lemma_quiet(p, 2, answers);
    lemma_no_more(at(p, 3), answers);
    reveal_with_fuel(as_far, 3);
    assert(commands(p, answers) =~= as_far(list, answers, 0));
    if ends_well(p, answers) {
        assert(all_succeed(list, answers));
    }
}

/// The journal is kept in memory: its configuration, which says so, is written to a
/// temporary file, this very file is moved to where journald reads it, and only then
/// is journald restarted.
pub proof fn lemma_journal_is_kept_in_memory(p: ProgressView, node: NodeInfo, answers: Answers)
    requires
        begins(p, journald_steps(node)),
    ensures
        ({
            let directory = "/etc/systemd/journald.conf.d"@;
            let draft = "/tmp/99-pifrost-journald.conf"@;
            let settings = "[Journal]\n"@ + "Storage=volatile\n"@ + "RuntimeMaxUse=100M\n"@
                + "MaxRetentionSec=1day\n"@ + "ForwardToSyslog=no\n"@ + "SystemMaxUse=0\n"@;
            runs(
                p,
                answers,
                seq![
                    sudo(node, "mkdir -p "@ + directory),
                    upload_text(settings, draft),
                    sudo(node, "mv "@ + draft + " "@ + directory + "/99-pifrost.conf"@),
                    sudo(node, "systemctl restart systemd-journald"@),
                ],
            )
        }),
{
    let directory = "/etc/systemd/journald.conf.d"@;
    let draft = "/tmp/99-pifrost-journald.conf"@;
    let settings = "[Journal]\n"@ + "Storage=volatile\n"@ + "RuntimeMaxUse=100M\n"@
        + "MaxRetentionSec=1day\n"@ + "ForwardToSyslog=no\n"@ + "SystemMaxUse=0\n"@;
    let list = seq![
        sudo(node, "mkdir -p "@ + directory),
        upload_text(settings, draft),
        sudo(node, "mv "@ + draft + " "@ + directory + "/99-pifrost.conf"@),
        sudo(node, "systemctl restart systemd-journald"@),
    ];
    reveal_strlit("/etc/systemd/journald.conf.d");
    reveal_strlit("mkdir -p ");
    reveal_strlit("mkdir -p /etc/systemd/journald.conf.d");
    assert("mkdir -p "@ + directory =~= "mkdir -p /etc/systemd/journald.conf.d"@);
    reveal_strlit("[Journal]\n");
    reveal_strlit("Storage=volatile\n");
    reveal_strlit("RuntimeMaxUse=100M\n");
    reveal_strlit("MaxRetentionSec=1day\n");
    reveal_strlit("ForwardToSyslog=no\n");
    reveal_strlit("SystemMaxUse=0\n");
    reveal_strlit(
        "[Journal]\nStorage=volatile\nRuntimeMaxUse=100M\nMaxRetentionSec=1day\nForwardToSyslog=no\nSystemMaxUse=0\n",
    );
    assert(settings =~= JOURNALD_CONF@);
    reveal_strlit("/tmp/99-pifrost-journald.conf");
    reveal_strlit("mv ");
    reveal_strlit(" ");
    reveal_strlit("/99-pifrost.conf");
    reveal_strlit("mv /tmp/99-pifrost-journald.conf /etc/systemd/journald.conf.d/99-pifrost.conf");
    assert("mv "@ + draft + " "@ + directory + "/99-pifrost.conf"@
        =~= "mv /tmp/99-pifrost-journald.conf /etc/systemd/journald.conf.d/99-pifrost.conf"@);
    assert(is_direct(p.steps));
    assert(p == at(p, 0));
    lemma_must(p, 0, list[0], answers);
    lemma_must(p, 1, list[1], answers);
    lemma_must(p, 2, list[2], answers);
    lemma_must(p, 3, list[3], answers);
    lemma_quiet(p, 4, answers);
    lemma_no_more(at(p, 5), answers);
    reveal_with_fuel(as_far, 5);
    assert(commands(p, answers) =~= as_far(list, answers, 0));
    if ends_well(p, answers) {
        assert(all_succeed(list, answers));
    }
}

/// The kernel is set up for Kubernetes: the settings are written to a temporary file,
/// this very file is moved to where they are read at each start, and then they are
/// put into force.
pub proof fn lemma_kernel_is_set_up(p: ProgressView, node: NodeInfo, answers: Answers)
    requires
        begins(p, sysctl_steps(node)),
    ensures
        ({
            let draft = "/tmp/99-pifrost-sysctl.conf"@;
            let settings = "net.bridge.bridge-nf-call-iptables=1\n"@ + "net.ipv4.ip_forward=1\n"@
                + "net.ipv6.conf.all.forwarding=1\n"@ + "kernel.panic=10\n"@
                + "kernel.panic_on_oops=1\n"@;
            runs(
                p,
                answers,
                seq![
                    upload_text(settings, draft),
                    sudo(node, "mv "@ + draft + " /etc/sysctl.d/99-pifrost.conf"@),
                    sudo(node, "sysctl --system"@),
                ],
            )
        }),
{
    let draft = "/tmp/99-pifrost-sysctl.conf"@;
    let settings = "net.bridge.bridge-nf-call-iptables=1\n"@ + "net.ipv4.ip_forward=1\n"@
        + "net.ipv6.conf.all.forwarding=1\n"@ + "kernel.panic=10\n"@ + "kernel.panic_on_oops=1\n"@;
    let list = seq![
        upload_text(settings, draft),
        sudo(node, "mv "@ + draft + " /etc/sysctl.d/99-pifrost.conf"@),
        sudo(node, "sysctl --system"@),
    ];
    reveal_strlit("net.bridge.bridge-nf-call-iptables=1\n");
    reveal_strlit("net.ipv4.ip_forward=1\n");
    reveal_strlit("net.ipv6.conf.all.forwarding=1\n");
    reveal_strlit("kernel.panic=10\n");
    reveal_strlit("kernel.panic_on_oops=1\n");
    reveal_strlit(
        "net.bridge.bridge-nf-call-iptables=1\nnet.ipv4.ip_forward=1\nnet.ipv6.conf.all.forwarding=1\nkernel.panic=10\nkernel.panic_on_oops=1\n",
    );
    assert(settings =~= SYSCTL_CONF@);
    reveal_strlit("/tmp/99-pifrost-sysctl.conf");
    reveal_strlit("mv ");
    reveal_strlit(" /etc/sysctl.d/99-pifrost.conf");
    reveal_strlit("mv /tmp/99-pifrost-sysctl.conf /etc/sysctl.d/99-pifrost.conf");
    assert("mv "@ + draft + " /etc/sysctl.d/99-pifrost.conf"@
        =~= "mv /tmp/99-pifrost-sysctl.conf /etc/sysctl.d/99-pifrost.conf"@);
    assert(is_direct(p.steps));
    assert(p == at(p, 0));
    lemma_must(p, 0, list[0], answers);
    lemma_must(p, 1, list[1], answers);
    lemma_must(p, 2, list[2], answers);
    lemma_quiet(p, 3, answers);
    lemma_no_more(at(p, 4), answers);
    reveal_with_fuel(as_far, 4);
    assert(commands(p, answers) =~= as_far(list, answers, 0));
    if ends_well(p, answers) {
        assert(all_succeed(list, answers));
    }
}

/// A node is named by one command, and the plan fails if that does.
pub proof fn lemma_node_is_named(
    p: ProgressView,
    node: NodeInfo,
    hostname: Seq<char>,
    answers: Answers,
)
    requires
        begins(p, hostname_steps(node, hostname)),
    ensures
        runs(p, answers, seq![sudo(node, "hostnamectl set-hostname "@ + hostname)]),
{
    let list = seq![sudo(node, "hostnamectl set-hostname "@ + hostname)];
    assert(is_direct(p.steps));
    assert(p == at(p, 0));
    lemma_must(p, 0, list[0], answers);
    lemma_quiet(p, 1, answers);
    lemma_no_more(at(p, 2), answers);
    reveal_with_fuel(as_far, 2);
    assert(commands(p, answers) =~= as_far(list, answers, 0));
    if ends_well(p, answers) {
        assert(all_succeed(list, answers));
    }
}

/// The root file system is mounted without access times now and at each start, as
/// far as that is possible: a failure does not stop the plan.
pub proof fn lemma_access_times_are_left_out(p: ProgressView, node: NodeInfo, answers: Answers)
    requires
        begins(p, noatime_steps(node)),
    ensures
        commands(p, answers) == seq![
            sudo(node, "mount -o remount,noatime /"@),
            sudo(
                node,
                "sed -i 's/  errors=remount-ro/  noatime,errors=remount-ro/' /etc/fstab"@,
            ),
        ],
        ends_well(p, answers),
        end(p, answers).unhealthy == p.unhealthy,
{
    let now = sudo(node, "mount -o remount,noatime /"@);
    let later = sudo(
        node,
        "sed -i 's/  errors=remount-ro/  noatime,errors=remount-ro/' /etc/fstab"@,
    );
    assert(is_direct(p.steps));
    assert(p == at(p, 0));
    lemma_may(p, 0, now, answers);
    lemma_may(p, 1, later, answers);
    lemma_quiet(p, 2, answers);
    lemma_no_more(at(p, 3), answers);
    assert(commands(p, answers) =~= seq![now, later]);
}

/// The audit daemon is stopped and disabled exactly where it is enabled.
pub proof fn lemma_audit_is_switched_off(p: ProgressView, node: NodeInfo, answers: Answers)
    requires
        begins(p, auditd_steps(node)),
    ensures
        ({
            let asked = "systemctl is-enabled auditd 2>/dev/null"@;
            let stop = sudo(node, "systemctl stop auditd && systemctl disable auditd"@);
            if succeeds(answers, asked) {
                &&& commands(p, answers) == seq![asked, stop]
                &&& ends_well(p, answers) == succeeds(answers, stop)
            } else {
                &&& commands(p, answers) == seq![asked]
                &&& ends_well(p, answers)
            }
        }),
        ends_well(p, answers) ==> end(p, answers).unhealthy == p.unhealthy,
{
    let asked = "systemctl is-enabled auditd 2>/dev/null"@;
    let stop = sudo(node, "systemctl stop auditd && systemctl disable auditd"@);
    assert(is_direct(p.steps));
    assert(p == at(p, 0));
    lemma_probe(p, 0, asked, answers);
    lemma_must(p, 1, stop, answers);
    lemma_quiet(p, 2, answers);
    lemma_no_more(at(p, 3), answers);
    if succeeds(answers, asked) {
        assert(commands(p, answers) =~= seq![asked, stop]);
    } else {
        assert(commands(p, answers) =~= seq![asked]);
    }
}

/// A directory is mounted in memory exactly where the table of file systems does
/// not name it yet: a line for it is added to the table, so that it is mounted at
/// each start, and it is created and mounted at once.
pub proof fn lemma_directory_is_mounted(
    p: ProgressView,
    node: NodeInfo,
    dir: Seq<char>,
    opts: Seq<char>,
    answers: Answers,
)
    requires
        begins(p, tmpfs_steps(node, dir, opts)),
    ensures
        ({
            let asked = "grep -q ' "@ + dir + " ' /etc/fstab"@;
            let line = "tmpfs "@ + dir + " tmpfs "@ + opts + " 0 0"@;
            let list = seq![
                sudo(node, "bash -c \"echo '"@ + line + "' >> /etc/fstab\""@),
                sudo(node, "mkdir -p "@ + dir),
                sudo(node, "mount "@ + dir),
            ];
            if succeeds(answers, asked) {
                &&& commands(p, answers) == seq![asked]
                &&& ends_well(p, answers)
            } else {
                &&& commands(p, answers) == seq![asked] + as_far(list, answers, 0)
                &&& ends_well(p, answers) == all_succeed(list, answers)
            }
        }),
        ends_well(p, answers) ==> end(p, answers).unhealthy == p.unhealthy,
{
    let asked = "grep -q ' "@ + dir + " ' /etc/fstab"@;
    let line = "tmpfs "@ + dir + " tmpfs "@ + opts + " 0 0"@;
    let list = seq![
        sudo(node, "bash -c \"echo '"@ + line + "' >> /etc/fstab\""@),
        sudo(node, "mkdir -p "@ + dir),
        sudo(node, "mount "@ + dir),
    ];
    assert("bash -c \"echo '"@ + line + "' >> /etc/fstab\""@ =~= "bash -c \"echo 'tmpfs "@ + dir
        + " tmpfs "@ + opts + " 0 0' >> /etc/fstab\""@) by {
        reveal_strlit("bash -c \"echo '");
        reveal_strlit("tmpfs ");
        reveal_strlit("bash -c \"echo 'tmpfs ");
        reveal_strlit(" 0 0");
        reveal_strlit("' >> /etc/fstab\"");
        reveal_strlit(" 0 0' >> /etc/fstab\"");
        assert("bash -c \"echo '"@ + "tmpfs "@ =~= "bash -c \"echo 'tmpfs "@);
        assert(" 0 0"@ + "' >> /etc/fstab\""@ =~= " 0 0' >> /etc/fstab\""@);
    }
    assert(is_direct(p.steps));
    assert(p == at(p, 0));
    lemma_probe(p, 0, asked, answers);
    lemma_must(p, 1, list[0], answers);
    lemma_must(p, 2, list[1], answers);
    lemma_must(p, 3, list[2], answers);
    lemma_no_more(at(p, 4), answers);
    reveal_with_fuel(as_far, 4);
    if succeeds(answers, asked) {
        assert(commands(p, answers) =~= seq![asked]);
    } else {
        assert(commands(p, answers) =~= seq![asked] + as_far(list, answers, 0));
        if ends_well(p, answers) {
            assert(all_succeed(list, answers));
        }
    }
}

/// RKE2 is installed exactly where it is not installed yet, in the version that is
/// configured, and as an agent for an agent.
pub proof fn lemma_rke2_is_installed(
    p: ProgressView,
    rke2: Rke2Config,
    role: Seq<char>,
    node: NodeInfo,
    answers: Answers,
)
    requires
        begins(p, rke2_binary_steps(rke2, role, node)),
    ensures
        ({
            let asked = "test -f '/usr/local/bin/rke2'"@;
            let kind = if role == "agent"@ {
                "INSTALL_RKE2_TYPE=agent "@
            } else {
                Seq::empty()
            };
            let install = sudo(
                node,
                "bash -c 'curl -sfL https://get.rke2.io | "@ + kind + "INSTALL_RKE2_VERSION="@
                    + rke2.version@ + " sh -'"@,
            );
            if succeeds(answers, asked) {
                &&& commands(p, answers) == seq![asked]
                &&& ends_well(p, answers)
            } else {
                &&& commands(p, answers) == seq![asked, install]
                &&& ends_well(p, answers) == succeeds(answers, install)
            }
        }),
        ends_well(p, answers) ==> end(p, answers).unhealthy == p.unhealthy,
{
    let asked = "test -f '/usr/local/bin/rke2'"@;
    let kind = if role == "agent"@ {
        "INSTALL_RKE2_TYPE=agent "@
    } else {
        Seq::empty()
    };
    let install = sudo(
        node,
        "bash -c 'curl -sfL https://get.rke2.io | "@ + kind + "INSTALL_RKE2_VERSION="@
            + rke2.version@ + " sh -'"@,
    );
    assert(file_test("/usr/local/bin/rke2"@) =~= asked) by {
        reveal_strlit("/usr/local/bin/rke2");
        reveal_strlit("test -f '");
        reveal_strlit("'");
        reveal_strlit("test -f '/usr/local/bin/rke2'");
    }
    assert(is_direct(p.steps));
    assert(p == at(p, 0));
    lemma_probe(p, 0, asked, answers);
    lemma_quiet(p, 1, answers);
    lemma_must(p, 2, install, answers);
    lemma_jump(p, 3, answers);
    lemma_quiet(p, 4, answers);
    lemma_no_more(at(p, 5), answers);
    if succeeds(answers, asked) {
        assert(commands(p, answers) =~= seq![asked]);
    } else {
        assert(commands(p, answers) =~= seq![asked, install]);
    }
}

/// The configuration of RKE2 is written to a temporary file, and this very file is
/// moved to where RKE2 reads it; what stands there is read back at the end.
pub proof fn lemma_rke2_is_configured(
    p: ProgressView,
    config_yaml: Seq<char>,
    node: NodeInfo,
    answers: Answers,
)
    requires
        begins(p, rke2_config_steps(config_yaml, node)),
    ensures
        ({
            let directory = "/etc/rancher/rke2"@;
            let draft = "/tmp/rke2-config.yaml"@;
            let file = directory + "/config.yaml"@;
            let list = seq![
                sudo(node, "mkdir -p "@ + directory),
                upload_text(config_yaml, draft),
                sudo(node, "mv "@ + draft + " "@ + file),
            ];
            &&& commands(p, answers) == as_far(list, answers, 0) + (if all_succeed(list, answers) {
                seq![sudo(node, "cat "@ + file)]
            } else {
                Seq::empty()
            })
            &&& ends_well(p, answers) == all_succeed(list, answers)
        }),
        ends_well(p, answers) ==> end(p, answers).unhealthy == p.unhealthy,
{
    let directory = "/etc/rancher/rke2"@;
    let draft = "/tmp/rke2-config.yaml"@;
    let file = directory + "/config.yaml"@;
    let list = seq![
        sudo(node, "mkdir -p "@ + directory),
        upload_text(config_yaml, draft),
        sudo(node, "mv "@ + draft + " "@ + file),
    ];
    let read = sudo(node, "cat "@ + file);
    assert("mkdir -p "@ + directory =~= "mkdir -p /etc/rancher/rke2"@ && "mv "@ + draft + " "@ + file
        =~= "mv /tmp/rke2-config.yaml /etc/rancher/rke2/config.yaml"@ && "cat "@ + file
        =~= "cat /etc/rancher/rke2/config.yaml"@) by {
        reveal_strlit("/etc/rancher/rke2");
        reveal_strlit("/tmp/rke2-config.yaml");
        reveal_strlit("/config.yaml");
        reveal_strlit("mkdir -p ");
        reveal_strlit("mv ");
        reveal_strlit(" ");
        reveal_strlit("cat ");
        reveal_strlit("mkdir -p /etc/rancher/rke2");
        reveal_strlit("mv /tmp/rke2-config.yaml /etc/rancher/rke2/config.yaml");
        reveal_strlit("cat /etc/rancher/rke2/config.yaml");
    }
    assert(is_direct(p.steps));
    assert(p == at(p, 0));
    lemma_must(p, 0, list[0], answers);
    lemma_quiet(p, 1, answers);
    lemma_must(p, 2, list[1], answers);
    lemma_must(p, 3, list[2], answers);
    let here = at(p, 4);
    let kept = answered(here, answers);
    lemma_next(here, answers);
    assert(kept == (ProgressView { captured: p.captured.push(answers(read).stdout), ..at(p, 5) }));
    lemma_quiet(kept, 5, answers);
    assert(at(kept, 5) == kept);
    lemma_no_more(at(kept, 6), answers);
    assert(commands(here, answers) =~= seq![read]);
    reveal_with_fuel(as_far, 4);
    assert(all_succeed(list, answers) == (succeeds(answers, list[0]) && succeeds(answers, list[1])
        && succeeds(answers, list[2])));
    assert(commands(p, answers) =~= as_far(list, answers, 0) + (if all_succeed(list, answers) {
        seq![read]
    } else {
        Seq::empty()
    }));
}

/// A service that is not enabled yet is enabled before it is started, so that it
/// comes up again after a reboot; one that is enabled is not enabled again. If it
/// does not start or does not stay up, its status and its journal are read, and the
/// plan fails.
pub proof fn lemma_service_is_enabled_and_started(
    p: ProgressView,
    service: Seq<char>,
    node: NodeInfo,
    answers: Answers,
)
    requires
        begins(p, rke2_service_steps(service, node)),
        !p.unhealthy,
    ensures
        ({
            let asked = "systemctl is-enabled "@ + service;
            let enable = sudo(node, "systemctl enable "@ + service);
            let start = sudo(node, "systemctl start "@ + service);
            let active = sudo(node, "systemctl is-active "@ + service);
            let status = sudo(node, "systemctl status "@ + service + " --no-pager"@);
            let journal = sudo(node, "journalctl -xeu "@ + service + " --no-pager -n 100"@);
            let enabled = succeeds(answers, asked);
            let up = succeeds(answers, start) && succeeds(answers, active);
            if !enabled && !succeeds(answers, enable) {
                &&& commands(p, answers) == seq![asked, enable]
                &&& !ends_well(p, answers)
            } else {
                &&& commands(p, answers) == (if enabled {
                    seq![asked]
                } else {
                    seq![asked, enable]
                }) + seq![start, active] + (if up {
                    Seq::empty()
                } else {
                    seq![status, journal]
                })
                &&& ends_well(p, answers) == up
            }
        }),
        ends_well(p, answers) ==> !end(p, answers).unhealthy,
{
    let asked = "systemctl is-enabled "@ + service;
    let enable = sudo(node, "systemctl enable "@ + service);
    assert(is_direct(p.steps));
    assert(p == at(p, 0));
    lemma_probe(p, 0, asked, answers);
    lemma_must(p, 1, enable, answers);
    lemma_quiet(p, 2, answers);
    lemma_service_start(p, service, node, answers);
    let start = sudo(node, "systemctl start "@ + service);
    let active = sudo(node, "systemctl is-active "@ + service);
    let status = sudo(node, "systemctl status "@ + service + " --no-pager"@);
    let journal = sudo(node, "journalctl -xeu "@ + service + " --no-pager -n 100"@);
    let up = succeeds(answers, start) && succeeds(answers, active);
    let tail = seq![start, active] + (if up {
        Seq::empty()
    } else {
        seq![status, journal]
    });
    if succeeds(answers, asked) {
        assert(commands(p, answers) =~= seq![asked] + tail);
        assert(seq![asked] + tail =~= seq![asked] + seq![start, active] + (if up {
            Seq::empty()
        } else {
            seq![status, journal]
        }));
    } else if succeeds(answers, enable) {
        assert(commands(p, answers) =~= seq![asked, enable] + tail);
        assert(seq![asked, enable] + tail =~= seq![asked, enable] + seq![start, active] + (if up {
            Seq::empty()
        } else {
            seq![status, journal]
        }));
    } else {
        assert(commands(p, answers) =~= seq![asked, enable]);
    }
}

proof fn lemma_service_start(
    p: ProgressView,
    service: Seq<char>,
    node: NodeInfo,
    answers: Answers,
)
    requires
        begins(p, rke2_service_steps(service, node)),
        !p.unhealthy,
    ensures
        ({
            let start = sudo(node, "systemctl start "@ + service);
            let active = sudo(node, "systemctl is-active "@ + service);
            let status = sudo(node, "systemctl status "@ + service + " --no-pager"@);
            let journal = sudo(node, "journalctl -xeu "@ + service + " --no-pager -n 100"@);
            let up = succeeds(answers, start) && succeeds(answers, active);
            &&& commands(at(p, 3), answers) == seq![start, active] + (if up {
                Seq::empty()
            } else {
                seq![status, journal]
            })
            &&& ends_well(at(p, 3), answers) == up
            &&& up ==> !end(at(p, 3), answers).unhealthy
        }),
{
    let start = sudo(node, "systemctl start "@ + service);
    let active = sudo(node, "systemctl is-active "@ + service);
    let status = sudo(node, "systemctl status "@ + service + " --no-pager"@);
    let journal = sudo(node, "journalctl -xeu "@ + service + " --no-pager -n 100"@);
    let up = succeeds(answers, start) && succeeds(answers, active);
    assert(is_direct(p.steps));
    let a = at(p, 3);
    let b = answered(a, answers);
    assert(next_command(a) == seq![start]);
    assert(b.steps == p.steps && b.at == 4 && b.failure is None && b.unhealthy == !succeeds(
        answers,
        start,
    ));
    lemma_next(a, answers);
    let c = answered(b, answers);
    assert(next_command(b) == seq![active]);
    assert(c.steps == p.steps && c.at == 5 && c.failure is None && c.unhealthy == !up);
    lemma_next(b, answers);
    let d = answered(c, answers);
    assert(next_command(c) =~= Seq::<Seq<char>>::empty());
    lemma_next(c, answers);
    if up {
        assert(d == at(d, 12));
        lemma_quiet(d, 12, answers);
        lemma_no_more(at(d, 13), answers);
        assert(commands(a, answers) =~= seq![start, active]);
        assert(seq![start, active] + Seq::<Seq<char>>::empty() =~= seq![start, active]);
    } else {
        assert(d == at(d, 6));
        lemma_quiet(d, 6, answers);
        let e = at(d, 7);
        let f = answered(e, answers);
        assert(next_command(e) == seq![status]);
        assert(f.steps == p.steps && f.at == 8 && f.failure is None);
        lemma_next(e, answers);
        let g = answered(f, answers);
        assert(next_command(f) == seq![journal]);
        assert(g.steps == p.steps && g.at == 9 && g.failure is None);
        lemma_next(f, answers);
        assert(g == at(g, 9));
        lemma_quiet(g, 9, answers);
        lemma_quiet(g, 10, answers);
        let h = at(g, 11);
        assert(next_command(h) =~= Seq::<Seq<char>>::empty());
        assert(answered(h, answers).failure is Some);
        lemma_next(h, answers);
        lemma_no_more(answered(h, answers), answers);
        assert(commands(a, answers) =~= seq![start, active] + seq![status, journal]);
    }
}

/// Helm is installed exactly where it is not found: its installer is downloaded, it
/// is made sure that it is there, it is run by the administrator, and it is removed.
pub proof fn lemma_helm_is_installed(p: ProgressView, node: NodeInfo, answers: Answers)
    requires
        begins(p, helm_steps(node)),
    ensures
        ({
            let asked = "command -v helm"@;
            let script = "/home/"@ + node.user@ + "/get-helm.sh"@;
            let list = seq![
                "curl -sfL "@
                    + "https://raw.githubusercontent.com/helm/helm/main/scripts/get-helm-3"@
                    + " -o "@ + script,
                "test -f "@ + script,
                sudo(node, "bash "@ + script),
                "rm -f "@ + script,
            ];
            if succeeds(answers, asked) {
                &&& commands(p, answers) == seq![asked]
                &&& ends_well(p, answers)
            } else {
                &&& commands(p, answers) == seq![asked] + as_far(list, answers, 0)
                &&& ends_well(p, answers) == all_succeed(list, answers)
            }
        }),
{
    let asked = "command -v helm"@;
    let script = "/home/"@ + node.user@ + "/get-helm.sh"@;
    let list = seq![
        "curl -sfL "@ + "https://raw.githubusercontent.com/helm/helm/main/scripts/get-helm-3"@
            + " -o "@ + script,
        "test -f "@ + script,
        sudo(node, "bash "@ + script),
        "rm -f "@ + script,
    ];
    assert(is_direct(p.steps));
    assert(p == at(p, 0));
    lemma_probe(p, 0, asked, answers);
    lemma_quiet(p, 1, answers);
    lemma_quiet(p, 2, answers);
    lemma_must(p, 3, list[0], answers);
    lemma_must(p, 4, list[1], answers);
    lemma_quiet(p, 5, answers);
    lemma_must(p, 6, list[2], answers);
    lemma_must(p, 7, list[3], answers);
    lemma_no_more(at(p, 8), answers);
    reveal_with_fuel(as_far, 5);
    if succeeds(answers, asked) {
        assert(commands(p, answers) =~= seq![asked]);
    } else {
        assert(commands(p, answers) =~= seq![asked] + as_far(list, answers, 0));
        if ends_well(p, answers) {
            assert(all_succeed(list, answers));
        }
    }
}

/// Rancher is installed last, with the name that is configured, once its charts and
/// its namespace are there. Where the cluster has no cert-manager, that is applied
/// and waited for before; where it has, neither is done.
pub proof fn lemma_rancher_is_installed(
    p: ProgressView,
    hostname: Seq<char>,
    node: NodeInfo,
    answers: Answers,
)
    requires
        begins(p, rancher_chart_steps(hostname, node)),
    ensures
        ({
            let env =
                "export KUBECONFIG=/etc/rancher/rke2/rke2.yaml && export PATH=/usr/local/sbin:/usr/local/bin:/usr/sbin:/usr/bin:/sbin:/bin:/var/lib/rancher/rke2/bin"@;
            let kube = |c: Seq<char>| sudo(node, "bash -c '"@ + env + c + "'"@);
            let charts = kube(
                " && helm repo add rancher-stable https://releases.rancher.com/server-charts/stable && helm repo update"@,
            );
            let namespace = kube(
                " && kubectl create namespace cattle-system --dry-run=client -o yaml | kubectl apply -f -"@,
            );
            let asked = kube(" && kubectl get ns cert-manager 2>/dev/null"@);
            let apply = kube(
                " && kubectl apply -f https://github.com/cert-manager/cert-manager/releases/download/v1.16.0/cert-manager.yaml"@,
            );
            let wait = kube(
                " && kubectl wait --for=condition=Available --timeout=120s -n cert-manager deployment/cert-manager deployment/cert-manager-webhook deployment/cert-manager-cainjector"@,
            );
            let install = kube(
                " && helm upgrade --install rancher rancher-stable/rancher --namespace cattle-system --create-namespace --set hostname="@
                    + hostname + " --set bootstrapPassword=admin --set replicas=1 --wait"@,
            );
            let first = seq![charts, namespace];
            let rest = if succeeds(answers, asked) {
                seq![install]
            } else {
                seq![apply, wait, install]
            };
            if all_succeed(first, answers) {
                &&& commands(p, answers) == seq![charts, namespace, asked] + as_far(
                    rest,
                    answers,
                    0,
                )
                &&& ends_well(p, answers) == all_succeed(rest, answers)
            } else {
                &&& commands(p, answers) == as_far(first, answers, 0)
                &&& !ends_well(p, answers)
            }
        }),
{
    let charts = kube_command(
        node,
        " && helm repo add rancher-stable https://releases.rancher.com/server-charts/stable && helm repo update"@,
    );
    let namespace = kube_command(
        node,
        " && kubectl create namespace cattle-system --dry-run=client -o yaml | kubectl apply -f -"@,
    );
    let asked = kube_command(node, " && kubectl get ns cert-manager 2>/dev/null"@);
    let apply = kube_command(
        node,
        " && kubectl apply -f https://github.com/cert-manager/cert-manager/releases/download/v1.16.0/cert-manager.yaml"@,
    );
    let wait = kube_command(
        node,
        " && kubectl wait --for=condition=Available --timeout=120s -n cert-manager deployment/cert-manager deployment/cert-manager-webhook deployment/cert-manager-cainjector"@,
    );
    let install = kube_command(
        node,
        " && helm upgrade --install rancher rancher-stable/rancher --namespace cattle-system --create-namespace --set hostname="@
            + hostname + " --set bootstrapPassword=admin --set replicas=1 --wait"@,
    );
    assert(is_direct(p.steps));
    assert(p == at(p, 0));
    lemma_must(p, 0, charts, answers);
    lemma_must(p, 1, namespace, answers);
    lemma_quiet(p, 2, answers);
    lemma_probe(p, 3, asked, answers);
    lemma_must(p, 4, apply, answers);
    lemma_quiet(p, 5, answers);
    lemma_must(p, 6, wait, answers);
    lemma_quiet(p, 7, answers);
    lemma_must(p, 8, install, answers);
    lemma_quiet(p, 9, answers);
    lemma_no_more(at(p, 10), answers);
    reveal_with_fuel(as_far, 4);
    let first = seq![charts, namespace];
    assert(all_succeed(first, answers) == (succeeds(answers, first[0]) && succeeds(
        answers,
        first[1],
    )));
    if all_succeed(first, answers) {
        if succeeds(answers, asked) {
            let rest = seq![install];
            assert(all_succeed(rest, answers) == succeeds(answers, rest[0]));
            assert(commands(p, answers) =~= seq![charts, namespace, asked] + as_far(
                rest,
                answers,
                0,
            ));
        } else {
            let rest = seq![apply, wait, install];
            assert(all_succeed(rest, answers) == (succeeds(answers, rest[0]) && succeeds(
                answers,
                rest[1],
            ) && succeeds(answers, rest[2])));
            assert(commands(p, answers) =~= seq![charts, namespace, asked] + as_far(
                rest,
                answers,
                0,
            ));
        }
    } else {
        assert(commands(p, answers) =~= as_far(first, answers, 0));
    }
}

/// Whether the administrator's commands and the writing of files succeed.
pub open spec fn grants(node: NodeInfo, answers: Answers) -> bool {
    &&& forall|c: Seq<char>| succeeds(answers, #[trigger] sudo(node, c))
    &&& forall|content: Seq<char>, remote: Seq<char>|
        succeeds(answers, #[trigger] upload_text(content, remote))
}

/// A list all of whose commands succeed is run in full.
proof fn lemma_as_far_all(list: Seq<Seq<char>>, answers: Answers, i: int)
    requires
        all_succeed(list, answers),
        0 <= i <= list.len(),
    ensures
        as_far(list, answers, i) == list.skip(i),
    decreases list.len() - i,
{
    if i < list.len() {
        assert(succeeds(answers, list[i]));
        lemma_as_far_all(list, answers, i + 1);
        assert(seq![list[i]] + list.skip(i + 1) =~= list.skip(i));
    } else {
        assert(list.skip(i) =~= Seq::<Seq<char>>::empty());
    }
}

/// A node whose administrator's commands succeed is made to run RKE2: the binary is
/// installed if it is missing, the configuration is put in place, the service of
/// the role is enabled if it is not, and then it is started and asked whether it is
/// up, in this order.
pub proof fn lemma_rke2_runs(
    rke2: Rke2Config,
    role: Seq<char>,
    config_yaml: Seq<char>,
    node: NodeInfo,
    answers: Answers,
)
    requires
        grants(node, answers),
    ensures
        ({
            let binary = "test -f '/usr/local/bin/rke2'"@;
            let kind = if role == "agent"@ {
                "INSTALL_RKE2_TYPE=agent "@
            } else {
                Seq::empty()
            };
            let install = sudo(
                node,
                "bash -c 'curl -sfL https://get.rke2.io | "@ + kind + "INSTALL_RKE2_VERSION="@
                    + rke2.version@ + " sh -'"@,
            );
            let file = "/etc/rancher/rke2"@ + "/config.yaml"@;
            let draft = "/tmp/rke2-config.yaml"@;
            let asked = "systemctl is-enabled "@ + ("rke2-"@ + role);
            does(
                rke2_steps(rke2, role, config_yaml, node),
                answers,
                (if succeeds(answers, binary) {
                    seq![binary]
                } else {
                    seq![binary, install]
                }) + seq![
                    sudo(node, "mkdir -p "@ + "/etc/rancher/rke2"@),
                    upload_text(config_yaml, draft),
                    sudo(node, "mv "@ + draft + " "@ + file),
                    sudo(node, "cat "@ + file),
                ] + ((if succeeds(answers, asked) {
                    seq![asked]
                } else {
                    seq![asked, sudo(node, "systemctl enable "@ + ("rke2-"@ + role))]
                }) + seq![
                    sudo(node, "systemctl start "@ + ("rke2-"@ + role)),
                    sudo(node, "systemctl is-active "@ + ("rke2-"@ + role)),
                ]),
            )
        }),
{
    let a = rke2_binary_steps(rke2, role, node);
    let b = rke2_config_steps(config_yaml, node);
    let service = "rke2-"@ + role;
    let c = rke2_service_steps(service, node);
    assert(is_direct(a) && is_direct(b) && is_direct(c));
    let binary = "test -f '/usr/local/bin/rke2'"@;
    let kind = if role == "agent"@ {
        "INSTALL_RKE2_TYPE=agent "@
    } else {
        Seq::empty()
    };
    let install = sudo(
        node,
        "bash -c 'curl -sfL https://get.rke2.io | "@ + kind + "INSTALL_RKE2_VERSION="@
            + rke2.version@ + " sh -'"@,
    );
    let first = if succeeds(answers, binary) {
        seq![binary]
    } else {
        seq![binary, install]
    };
    assert(does(a, answers, first)) by {
        assert forall|p: ProgressView| #[trigger] begins(p, a) && !p.unhealthy implies {
            &&& commands(p, answers) == first
            &&& ends_well(p, answers)
            &&& !end(p, answers).unhealthy
        } by {
            lemma_rke2_is_installed(p, rke2, role, node, answers);
        }
    }
    let file = "/etc/rancher/rke2"@ + "/config.yaml"@;
    let draft = "/tmp/rke2-config.yaml"@;
    let list = seq![
        sudo(node, "mkdir -p "@ + "/etc/rancher/rke2"@),
        upload_text(config_yaml, draft),
        sudo(node, "mv "@ + draft + " "@ + file),
    ];
    let second = seq![
        sudo(node, "mkdir -p "@ + "/etc/rancher/rke2"@),
        upload_text(config_yaml, draft),
        sudo(node, "mv "@ + draft + " "@ + file),
        sudo(node, "cat "@ + file),
    ];
    assert(all_succeed(list, answers));
    lemma_as_far_all(list, answers, 0);
    assert(list.skip(0) + seq![sudo(node, "cat "@ + file)] =~= second);
    assert(does(b, answers, second)) by {
        assert forall|p: ProgressView| #[trigger] begins(p, b) && !p.unhealthy implies {
            &&& commands(p, answers) == second
            &&& ends_well(p, answers)
            &&& !end(p, answers).unhealthy
        } by {
            lemma_rke2_is_configured(p, config_yaml, node, answers);
        }
    }
    let asked = "systemctl is-enabled "@ + service;
    let third = (if succeeds(answers, asked) {
        seq![asked]
    } else {
        seq![asked, sudo(node, "systemctl enable "@ + service)]
    }) + seq![
        sudo(node, "systemctl start "@ + service),
        sudo(node, "systemctl is-active "@ + service),
    ];
    assert(does(c, answers, third)) by {
        assert forall|p: ProgressView| #[trigger] begins(p, c) && !p.unhealthy implies {
            &&& commands(p, answers) == third
            &&& ends_well(p, answers)
            &&& !end(p, answers).unhealthy
        } by {
            lemma_service_is_enabled_and_started(p, service, node, answers);
            assert(third + Seq::<Seq<char>>::empty() =~= third);
        }
    }
    lemma_does_both(a, b, answers, first, second);
    lemma_does_both(a + b, c, answers, first + second, third);
}

/// Rancher is deployed under the configured name once Helm is there.
pub proof fn lemma_helm_comes_before_rancher(
    rancher: RancherConfig,
    node: NodeInfo,
    answers: Answers,
    helm: Seq<Seq<char>>,
    charts: Seq<Seq<char>>,
)
    requires
        does(helm_steps(node), answers, helm),
        does(rancher_chart_steps(rancher.hostname@, node), answers, charts),
    ensures
        does(rancher_steps(rancher, node), answers, helm + charts),
{
    lemma_does_both(
        helm_steps(node),
        rancher_chart_steps(rancher.hostname@, node),
        answers,
        helm,
        charts,
    );
}

/// A plan that runs a list of commands that all succeed does just that.
proof fn lemma_runs_does(
    plan: Seq<Step<Seq<char>>>,
    answers: Answers,
    list: Seq<Seq<char>>,
)
    requires
        is_direct(plan),
        all_succeed(list, answers),
        forall|p: ProgressView| #[trigger] begins(p, plan) ==> runs(p, answers, list),
    ensures
        does(plan, answers, list),
{
    lemma_as_far_all(list, answers, 0);
    assert(list.skip(0) =~= list);
    assert forall|p: ProgressView| #[trigger] begins(p, plan) && !p.unhealthy implies {
        &&& commands(p, answers) == list
        &&& ends_well(p, answers)
        &&& !end(p, answers).unhealthy
    } by {
        assert(runs(p, answers, list));
    }
}

/// Where logs are to leave nothing behind, the journal is kept in memory and the
/// audit daemon is switched off where it is enabled; where not, neither is touched.
pub proof fn lemma_logs_leave_nothing(zero_logs: bool, node: NodeInfo, answers: Answers)
    requires
        grants(node, answers),
    ensures
        ({
            let directory = "/etc/systemd/journald.conf.d"@;
            let draft = "/tmp/99-pifrost-journald.conf"@;
            let settings = "[Journal]\n"@ + "Storage=volatile\n"@ + "RuntimeMaxUse=100M\n"@
                + "MaxRetentionSec=1day\n"@ + "ForwardToSyslog=no\n"@ + "SystemMaxUse=0\n"@;
            let asked = "systemctl is-enabled auditd 2>/dev/null"@;
            does(
                if_set(zero_logs, journald_steps(node) + auditd_steps(node)),
                answers,
                if zero_logs {
                    seq![
                        sudo(node, "mkdir -p "@ + directory),
                        upload_text(settings, draft),
                        sudo(node, "mv "@ + draft + " "@ + directory + "/99-pifrost.conf"@),
                        sudo(node, "systemctl restart systemd-journald"@),
                    ] + (if succeeds(answers, asked) {
                        seq![
                            asked,
                            sudo(node, "systemctl stop auditd && systemctl disable auditd"@),
                        ]
                    } else {
                        seq![asked]
                    })
                } else {
                    Seq::empty()
                },
            )
        }),
{
    lemma_does_nothing(answers);
    let directory = "/etc/systemd/journald.conf.d"@;
    let draft = "/tmp/99-pifrost-journald.conf"@;
    let settings = "[Journal]\n"@ + "Storage=volatile\n"@ + "RuntimeMaxUse=100M\n"@
        + "MaxRetentionSec=1day\n"@ + "ForwardToSyslog=no\n"@ + "SystemMaxUse=0\n"@;
    let list = seq![
        sudo(node, "mkdir -p "@ + directory),
        upload_text(settings, draft),
        sudo(node, "mv "@ + draft + " "@ + directory + "/99-pifrost.conf"@),
        sudo(node, "systemctl restart systemd-journald"@),
    ];
    let a = journald_steps(node);
    let b = auditd_steps(node);
    assert(is_direct(a) && is_direct(b));
    assert(all_succeed(list, answers));
    assert forall|p: ProgressView| #[trigger] begins(p, a) implies runs(p, answers, list) by {
        lemma_journal_is_kept_in_memory(p, node, answers);
    }
    lemma_runs_does(a, answers, list);
    let asked = "systemctl is-enabled auditd 2>/dev/null"@;
    let audit = if succeeds(answers, asked) {
        seq![asked, sudo(node, "systemctl stop auditd && systemctl disable auditd"@)]
    } else {
        seq![asked]
    };
    assert(does(b, answers, audit)) by {
        assert forall|p: ProgressView| #[trigger] begins(p, b) && !p.unhealthy implies {
            &&& commands(p, answers) == audit
            &&& ends_well(p, answers)
            &&& !end(p, answers).unhealthy
        } by {
            lemma_audit_is_switched_off(p, node, answers);
        }
    }
    lemma_does_both(a, b, answers, list, audit);
}

/// The commands that mount one directory in memory, where the administrator's
/// commands succeed.
proof fn lemma_mount_does(node: NodeInfo, dir: Seq<char>, opts: Seq<char>, answers: Answers)
    requires
        grants(node, answers),
    ensures
        ({
            let asked = "grep -q ' "@ + dir + " ' /etc/fstab"@;
            let line = "tmpfs "@ + dir + " tmpfs "@ + opts + " 0 0"@;
            does(
                tmpfs_steps(node, dir, opts),
                answers,
                if succeeds(answers, asked) {
                    seq![asked]
                } else {
                    seq![
                        asked,
                        sudo(node, "bash -c \"echo '"@ + line + "' >> /etc/fstab\""@),
                        sudo(node, "mkdir -p "@ + dir),
                        sudo(node, "mount "@ + dir),
                    ]
                },
            )
        }),
{
    let asked = "grep -q ' "@ + dir + " ' /etc/fstab"@;
    let line = "tmpfs "@ + dir + " tmpfs "@ + opts + " 0 0"@;
    let list = seq![
        sudo(node, "bash -c \"echo '"@ + line + "' >> /etc/fstab\""@),
        sudo(node, "mkdir -p "@ + dir),
        sudo(node, "mount "@ + dir),
    ];
    assert(all_succeed(list, answers));
    lemma_as_far_all(list, answers, 0);
    assert(seq![asked] + list.skip(0) =~= seq![
        asked,
        sudo(node, "bash -c \"echo '"@ + line + "' >> /etc/fstab\""@),
        sudo(node, "mkdir -p "@ + dir),
        sudo(node, "mount "@ + dir),
    ]);
    let plan = tmpfs_steps(node, dir, opts);
    assert(is_direct(plan));
    assert forall|p: ProgressView| #[trigger] begins(p, plan) && !p.unhealthy implies {
        &&& commands(p, answers) == (if succeeds(answers, asked) {
            seq![asked]
        } else {
            seq![asked] + list.skip(0)
        })
        &&& ends_well(p, answers)
        &&& !end(p, answers).unhealthy
    } by {
        lemma_directory_is_mounted(p, node, dir, opts, answers);
    }
}

/// Where the file systems are to be kept small, the directories for logs and for
/// temporary files are mounted in memory where they are not yet, each with its own
/// mode and size, and access times are left out; where not, none of it is done.
pub proof fn lemma_files_stay_small(no_fs_bloat: bool, node: NodeInfo, answers: Answers)
    requires
        grants(node, answers),
    ensures
        ({
            let mounted = |dir: Seq<char>, opts: Seq<char>| -> Seq<Seq<char>> {
                let asked = "grep -q ' "@ + dir + " ' /etc/fstab"@;
                let line = "tmpfs "@ + dir + " tmpfs "@ + opts + " 0 0"@;
                if succeeds(answers, asked) {
                    seq![asked]
                } else {
                    seq![
                        asked,
                        sudo(node, "bash -c \"echo '"@ + line + "' >> /etc/fstab\""@),
                        sudo(node, "mkdir -p "@ + dir),
                        sudo(node, "mount "@ + dir),
                    ]
                }
            };
            does(
                if_set(no_fs_bloat, tmpfs_mounts_steps(node) + noatime_steps(node)),
                answers,
                if no_fs_bloat {
                    mounted("/var/log"@, "defaults,noatime,mode=0755,size=100M"@) + mounted(
                        "/tmp"@,
                        "defaults,noatime,mode=1777,size=500M"@,
                    ) + mounted("/var/tmp"@, "defaults,noatime,mode=1777,size=100M"@) + seq![
                        sudo(node, "mount -o remount,noatime /"@),
                        sudo(
                            node,
                            "sed -i 's/  errors=remount-ro/  noatime,errors=remount-ro/' /etc/fstab"@,
                        ),
                    ]
                } else {
                    Seq::empty()
                },
            )
        }),
{
    lemma_does_nothing(answers);
    let mounted = |dir: Seq<char>, opts: Seq<char>| -> Seq<Seq<char>> {
        let asked = "grep -q ' "@ + dir + " ' /etc/fstab"@;
        let line = "tmpfs "@ + dir + " tmpfs "@ + opts + " 0 0"@;
        if succeeds(answers, asked) {
            seq![asked]
        } else {
            seq![
                asked,
                sudo(node, "bash -c \"echo '"@ + line + "' >> /etc/fstab\""@),
                sudo(node, "mkdir -p "@ + dir),
                sudo(node, "mount "@ + dir),
            ]
        }
    };
    let log_opts = "defaults,noatime,mode=0755,size=100M"@;
    let tmp_opts = "defaults,noatime,mode=1777,size=500M"@;
    let var_opts = "defaults,noatime,mode=1777,size=100M"@;
    lemma_mount_does(node, "/var/log"@, log_opts, answers);
    lemma_mount_does(node, "/tmp"@, tmp_opts, answers);
    lemma_mount_does(node, "/var/tmp"@, var_opts, answers);
    let log = tmpfs_steps(node, "/var/log"@, log_opts);
    let tmp = tmpfs_steps(node, "/tmp"@, tmp_opts);
    let var = tmpfs_steps(node, "/var/tmp"@, var_opts);
    let said = seq![Step::<Seq<char>>::Say("    tmpfs → /var/log, /tmp, /var/tmp"@)];
    let a = mounted("/var/log"@, log_opts);
    let b = mounted("/tmp"@, tmp_opts);
    let c = mounted("/var/tmp"@, var_opts);
    assert(does(said, answers, Seq::empty())) by {
        assert(is_direct(said));
        assert forall|p: ProgressView| #[trigger] begins(p, said) && !p.unhealthy implies {
            &&& commands(p, answers) == Seq::<Seq<char>>::empty()
            &&& ends_well(p, answers)
            &&& !end(p, answers).unhealthy
        } by {
            assert(p == at(p, 0));
            lemma_quiet(p, 0, answers);
            lemma_no_more(at(p, 1), answers);
        }
    }
    let times = seq![
        sudo(node, "mount -o remount,noatime /"@),
        sudo(
            node,
            "sed -i 's/  errors=remount-ro/  noatime,errors=remount-ro/' /etc/fstab"@,
        ),
    ];
    let quiet = noatime_steps(node);
    assert(does(quiet, answers, times)) by {
        assert(is_direct(quiet));
        assert forall|p: ProgressView| #[trigger] begins(p, quiet) && !p.unhealthy implies {
            &&& commands(p, answers) == times
            &&& ends_well(p, answers)
            &&& !end(p, answers).unhealthy
        } by {
            lemma_access_times_are_left_out(p, node, answers);
        }
    }
    lemma_does_both(log, tmp, answers, a, b);
    lemma_does_both(log + tmp, var, answers, a + b, c);
    lemma_does_both(log + tmp + var, said, answers, a + b + c, Seq::empty());
    assert(a + b + c + Seq::<Seq<char>>::empty() =~= a + b + c);
    lemma_does_both(tmpfs_mounts_steps(node), quiet, answers, a + b + c, times);
}

/// Where swap is to be off, it is switched off now and at each start; where not, it
/// is not touched.
pub proof fn lemma_swap_is_off_where_wanted(disable_swap: bool, node: NodeInfo, answers: Answers)
    requires
        grants(node, answers),
    ensures
        does(
            if_set(disable_swap, swap_steps(node)),
            answers,
            if disable_swap {
                seq![sudo(node, "swapoff -a"@), sudo(node, "sed -i '/swap/d' /etc/fstab"@)]
            } else {
                Seq::empty()
            },
        ),
{
    lemma_does_nothing(answers);
    let list = seq![sudo(node, "swapoff -a"@), sudo(node, "sed -i '/swap/d' /etc/fstab"@)];
    let plan = swap_steps(node);
    assert(is_direct(plan));
    assert(all_succeed(list, answers));
    assert forall|p: ProgressView| #[trigger] begins(p, plan) implies runs(p, answers, list) by {
        lemma_swap_is_switched_off(p, node, answers);
    }
    lemma_runs_does(plan, answers, list);
}

/// The kernel of every node is set up for Kubernetes.
pub proof fn lemma_kernel_is_always_set_up(node: NodeInfo, answers: Answers)
    requires
        grants(node, answers),
    ensures
        ({
            let draft = "/tmp/99-pifrost-sysctl.conf"@;
            let settings = "net.bridge.bridge-nf-call-iptables=1\n"@ + "net.ipv4.ip_forward=1\n"@
                + "net.ipv6.conf.all.forwarding=1\n"@ + "kernel.panic=10\n"@
                + "kernel.panic_on_oops=1\n"@;
            does(
                sysctl_steps(node),
                answers,
                seq![
                    upload_text(settings, draft),
                    sudo(node, "mv "@ + draft + " /etc/sysctl.d/99-pifrost.conf"@),
                    sudo(node, "sysctl --system"@),
                ],
            )
        }),
{
    let draft = "/tmp/99-pifrost-sysctl.conf"@;
    let settings = "net.bridge.bridge-nf-call-iptables=1\n"@ + "net.ipv4.ip_forward=1\n"@
        + "net.ipv6.conf.all.forwarding=1\n"@ + "kernel.panic=10\n"@ + "kernel.panic_on_oops=1\n"@;
    let list = seq![
        upload_text(settings, draft),
        sudo(node, "mv "@ + draft + " /etc/sysctl.d/99-pifrost.conf"@),
        sudo(node, "sysctl --system"@),
    ];
    let plan = sysctl_steps(node);
    assert(is_direct(plan));
    assert(all_succeed(list, answers));
    assert forall|p: ProgressView| #[trigger] begins(p, plan) implies runs(p, answers, list) by {
        lemma_kernel_is_set_up(p, node, answers);
    }
    lemma_runs_does(plan, answers, list);
}

/// A node is hardened by the measures that are set, one after another: logs, file
/// systems, swap, and in any case the kernel. A measure that is not set runs no
/// command.
pub proof fn lemma_hardening_does(
    hardening: HardeningConfig,
    node: NodeInfo,
    answers: Answers,
    logs: Seq<Seq<char>>,
    files: Seq<Seq<char>>,
    swap: Seq<Seq<char>>,
    kernel: Seq<Seq<char>>,
)
    requires
        does(if_set(true, journald_steps(node) + auditd_steps(node)), answers, logs),
        does(if_set(true, tmpfs_mounts_steps(node) + noatime_steps(node)), answers, files),
        does(if_set(true, swap_steps(node)), answers, swap),
        does(sysctl_steps(node), answers, kernel),
    ensures
        does(
            hardening_steps(hardening, node),
            answers,
            (if hardening.zero_logs {
                logs
            } else {
                Seq::empty()
            }) + (if hardening.no_fs_bloat {
                files
            } else {
                Seq::empty()
            }) + (if hardening.disable_swap {
                swap
            } else {
                Seq::empty()
            }) + kernel,
        ),
{
    lemma_does_nothing(answers);
    let none = Seq::<Seq<char>>::empty();
    let a = if_set(hardening.zero_logs, journald_steps(node) + auditd_steps(node));
    let b = if_set(hardening.no_fs_bloat, tmpfs_mounts_steps(node) + noatime_steps(node));
    let c = if_set(hardening.disable_swap, swap_steps(node));
    let la = if hardening.zero_logs {
        logs
    } else {
        none
    };
    let lb = if hardening.no_fs_bloat {
        files
    } else {
        none
    };
    let lc = if hardening.disable_swap {
        swap
    } else {
        none
    };
    lemma_does_both(a, b, answers, la, lb);
    lemma_does_both(a + b, c, answers, la + lb, lc);
    lemma_does_both(a + b + c, sysctl_steps(node), answers, la + lb + lc, kernel);
}

proof fn lemma_name_does(node: NodeInfo, hostname: Seq<char>, answers: Answers)
    requires
        grants(node, answers),
    ensures
        does(
            hostname_steps(node, hostname),
            answers,
            seq![sudo(node, "hostnamectl set-hostname "@ + hostname)],
        ),
{
    let list = seq![sudo(node, "hostnamectl set-hostname "@ + hostname)];
    let plan = hostname_steps(node, hostname);
    assert(is_direct(plan));
    assert(all_succeed(list, answers));
    assert forall|p: ProgressView| #[trigger] begins(p, plan) implies runs(p, answers, list) by {
        lemma_node_is_named(p, node, hostname, answers);
    }
    lemma_runs_does(plan, answers, list);
}

proof fn lemma_greeting_does(answers: Answers)
    ensures
        does(seq![Step::Say("    hardening node..."@)], answers, Seq::empty()),
{
    let said = seq![Step::<Seq<char>>::Say("    hardening node..."@)];
    assert(is_direct(said));
    assert forall|p: ProgressView| #[trigger] begins(p, said) && !p.unhealthy implies {
        &&& commands(p, answers) == Seq::<Seq<char>>::empty()
        &&& ends_well(p, answers)
        &&& !end(p, answers).unhealthy
    } by {
        assert(p == at(p, 0));
        lemma_quiet(p, 0, answers);
        lemma_no_more(at(p, 1), answers);
    }
}

/// A server is hardened, then named as it is configured or after its address, and
/// then made to run RKE2 as a server, with a configuration of these lines: the
/// token of the cluster, the embedded registry, and a readable file for access; that
/// it bears no taint, where work is to be scheduled on it; how it joins, where it
/// does; and what is added by hand.
pub proof fn lemma_server_does(
    hardening: HardeningConfig,
    rke2: Rke2Config,
    join: Option<Seq<char>>,
    node: NodeInfo,
    use_as_worker: bool,
    answers: Answers,
    hardened: Seq<Seq<char>>,
    running: Seq<Seq<char>>,
)
    requires
        grants(node, answers),
        does(hardening_steps(hardening, node), answers, hardened),
        ({
            let none = Seq::<Seq<char>>::empty();
            let lines = seq![
                "token: pifrost-cluster-token"@,
                "embedded-registry: true"@,
                "write-kubeconfig-mode: \"0644\""@,
            ] + (if use_as_worker {
                seq!["node-taint: []"@]
            } else {
                none
            }) + (if join is Some {
                seq![join->0]
            } else {
                none
            }) + (if rke2.extra_args@.len() > 0 {
                seq![rke2.extra_args@]
            } else {
                none
            });
            does(rke2_steps(rke2, "server"@, joined(lines, "\n"@), node), answers, running)
        }),
    ensures
        ({
            let name = if node.hostname@.len() > 0 {
                node.hostname@
            } else {
                "pifrost-"@ + "server"@ + "-"@ + replaced(node.host@, '.', '-')
            };
            does(
                server_steps(hardening, rke2, join, node, use_as_worker),
                answers,
                hardened + seq![sudo(node, "hostnamectl set-hostname "@ + name)] + running,
            )
        }),
{
    let lines = server_config_lines(rke2, join, use_as_worker);
    let none = Seq::<Seq<char>>::empty();
    assert(lines =~= seq![
        "token: pifrost-cluster-token"@,
        "embedded-registry: true"@,
        "write-kubeconfig-mode: \"0644\""@,
    ] + (if use_as_worker {
        seq!["node-taint: []"@]
    } else {
        none
    }) + (if join is Some {
        seq![join->0]
    } else {
        none
    }) + (if rke2.extra_args@.len() > 0 {
        seq![rke2.extra_args@]
    } else {
        none
    }));
    let name = hostname_of(node, "server"@);
    let said = seq![Step::<Seq<char>>::Say("    hardening node..."@)];
    let a = hardening_steps(hardening, node);
    let b = hostname_steps(node, name);
    let c = rke2_steps(rke2, "server"@, joined(lines, "\n"@), node);
    let named = seq![sudo(node, "hostnamectl set-hostname "@ + name)];
    lemma_greeting_does(answers);
    lemma_name_does(node, name, answers);
    lemma_does_both(said, a, answers, Seq::empty(), hardened);
    assert(Seq::<Seq<char>>::empty() + hardened =~= hardened);
    lemma_does_both(said + a, b, answers, hardened, named);
    lemma_does_both(said + a + b, c, answers, hardened + named, running);
}

/// A worker is hardened, then named as it is configured or after its address, and
/// then made to run RKE2 as an agent, with a configuration that says how it joins
/// and what is added by hand.
pub proof fn lemma_worker_does(
    hardening: HardeningConfig,
    rke2: Rke2Config,
    join: Seq<char>,
    node: NodeInfo,
    answers: Answers,
    hardened: Seq<Seq<char>>,
    running: Seq<Seq<char>>,
)
    requires
        grants(node, answers),
        does(hardening_steps(hardening, node), answers, hardened),
        does(
            rke2_steps(rke2, "agent"@, join + "\n"@ + rke2.extra_args@, node),
            answers,
            running,
        ),
    ensures
        ({
            let name = if node.hostname@.len() > 0 {
                node.hostname@
            } else {
                "pifrost-"@ + "worker"@ + "-"@ + replaced(node.host@, '.', '-')
            };
            does(
                worker_steps(hardening, rke2, join, node),
                answers,
                hardened + seq![sudo(node, "hostnamectl set-hostname "@ + name)] + running,
            )
        }),
{
    let name = hostname_of(node, "worker"@);
    let said = seq![Step::<Seq<char>>::Say("    hardening node..."@)];
    let a = hardening_steps(hardening, node);
    let b = hostname_steps(node, name);
    let c = rke2_steps(rke2, "agent"@, join + "\n"@ + rke2.extra_args@, node);
    let named = seq![sudo(node, "hostnamectl set-hostname "@ + name)];
    lemma_greeting_does(answers);
    lemma_name_does(node, name, answers);
    lemma_does_both(said, a, answers, Seq::empty(), hardened);
    assert(Seq::<Seq<char>>::empty() + hardened =~= hardened);
    lemma_does_both(said + a, b, answers, hardened, named);
    lemma_does_both(said + a + b, c, answers, hardened + named, running);
}

/// Whether no step of a plan that the administrator runs switches swap on.
pub open spec fn leaves_swap_off(plan: Seq<Step<Seq<char>>>, node: NodeInfo) -> bool {
    forall|i: int, c: Seq<char>|
        0 <= i < plan.len() && (#[trigger] plan[i] == Step::Exec(#[trigger] sudo(node, c))
            || plan[i] == Step::Attempt(sudo(node, c))) ==> !contains(c, "swapon"@)
}

/// Where swap is to be off, the steps that harden a node hold the one that switches it
/// off and, behind that, the one that deletes it from the table of file systems.
/// Whatever is set, none of them switches swap on.
pub proof fn lemma_hardening_leaves_swap_off(hardening: HardeningConfig, node: NodeInfo)
    ensures
        ({
            let plan = hardening_steps(hardening, node);
            hardening.disable_swap ==> exists|i: int, j: int|
                {
                    &&& 0 <= i < j < plan.len()
                    &&& #[trigger] plan[i] == Step::<Seq<char>>::Exec(sudo(node, "swapoff -a"@))
                    &&& #[trigger] plan[j] == Step::<Seq<char>>::Exec(
                        sudo(node, "sed -i '/swap/d' /etc/fstab"@),
                    )
                }
        }),
        leaves_swap_off(hardening_steps(hardening, node), node),
{
    let a = if_set(hardening.zero_logs, journald_steps(node) + auditd_steps(node));
    let b = if_set(hardening.no_fs_bloat, tmpfs_mounts_steps(node) + noatime_steps(node));
    let plan = hardening_steps(hardening, node);
    if hardening.disable_swap {
        let k = (a.len() + b.len()) as int;
        assert(plan[k] == swap_steps(node)[0] && plan[k + 1] == swap_steps(node)[1]);
    }
    lemma_journald_leaves_swap_off(node);
    lemma_auditd_leaves_swap_off(node);
    lemma_mounts_leave_swap_off(node);
    lemma_noatime_leaves_swap_off(node);
    lemma_swap_leaves_swap_off(node);
    lemma_sysctl_leaves_swap_off(node);
    lemma_both_leave_swap_off(journald_steps(node), auditd_steps(node), node);
    lemma_both_leave_swap_off(tmpfs_mounts_steps(node), noatime_steps(node), node);
    let c = if_set(hardening.disable_swap, swap_steps(node));
    lemma_both_leave_swap_off(a, b, node);
    lemma_both_leave_swap_off(a + b, c, node);
    lemma_both_leave_swap_off(a + b + c, sysctl_steps(node), node);
}

/// Commands that the administrator runs are the same only if they are without that.
proof fn lemma_sudo_same(node: NodeInfo, a: Seq<char>, b: Seq<char>)
    requires
        sudo(node, a) == sudo(node, b),
    ensures
        a == b,
{
    let n = ("echo '"@ + node.password@ + "' | sudo -S "@).len() as int;
    assert(sudo(node, a).skip(n) =~= a);
    assert(sudo(node, b).skip(n) =~= b);
}

/// A text in which no `p` stands before `on` does not switch swap on.
proof fn lemma_no_swapon(c: Seq<char>)
    requires
        forall|i: int|
            #![trigger c[i]]
            0 <= i < c.len() - 2 ==> !(c[i] == 'p' && c[i + 1] == 'o' && c[i + 2] == 'n'),
    ensures
        !contains(c, "swapon"@),
{
    reveal_strlit("swapon");
    assert forall|i: int| !#[trigger] occurs_at(c, "swapon"@, i) by {
        if occurs_at(c, "swapon"@, i) {
            let found = c.subrange(i, i + 6);
            assert(found[3] == c[i + 3] && found[4] == c[i + 4] && found[5] == c[i + 5]);
        }
    }
}

proof fn lemma_journald_leaves_swap_off(node: NodeInfo)
    ensures
        leaves_swap_off(journald_steps(node), node),
{
    let plan = journald_steps(node);
    assert(!contains("mkdir -p /etc/systemd/journald.conf.d"@, "swapon"@)) by {
        reveal_strlit("mkdir -p /etc/systemd/journald.conf.d");
        lemma_no_swapon("mkdir -p /etc/systemd/journald.conf.d"@);
    }
    assert(!contains("mv /tmp/99-pifrost-journald.conf /etc/systemd/journald.conf.d/99-pifrost.conf"@, "swapon"@)) by {
        reveal_strlit(
            "mv /tmp/99-pifrost-journald.conf /etc/systemd/journald.conf.d/99-pifrost.conf",
        );
        lemma_no_swapon("mv /tmp/99-pifrost-journald.conf /etc/systemd/journald.conf.d/99-pifrost.conf"@);
    }
    assert(!contains("systemctl restart systemd-journald"@, "swapon"@)) by {
        reveal_strlit("systemctl restart systemd-journald");
        lemma_no_swapon("systemctl restart systemd-journald"@);
    }
    assert forall|i: int, c: Seq<char>|
        0 <= i < plan.len() && (#[trigger] plan[i] == Step::Exec(#[trigger] sudo(node, c))
            || plan[i] == Step::Attempt(sudo(node, c))) implies !contains(c, "swapon"@) by {
        if i == 0 {
            lemma_sudo_same(node, c, "mkdir -p /etc/systemd/journald.conf.d"@);
        } else if i == 2 {
            lemma_sudo_same(node, c, "mv /tmp/99-pifrost-journald.conf /etc/systemd/journald.conf.d/99-pifrost.conf"@);
        } else if i == 3 {
            lemma_sudo_same(node, c, "systemctl restart systemd-journald"@);
        }
    }
}

proof fn lemma_auditd_leaves_swap_off(node: NodeInfo)
    ensures
        leaves_swap_off(auditd_steps(node), node),
{
    let plan = auditd_steps(node);
    assert(!contains("systemctl stop auditd && systemctl disable auditd"@, "swapon"@)) by {
        reveal_strlit("systemctl stop auditd && systemctl disable auditd");
        lemma_no_swapon("systemctl stop auditd && systemctl disable auditd"@);
    }
    assert forall|i: int, c: Seq<char>|
        0 <= i < plan.len() && (#[trigger] plan[i] == Step::Exec(#[trigger] sudo(node, c))
            || plan[i] == Step::Attempt(sudo(node, c))) implies !contains(c, "swapon"@) by {
        if i == 1 {
            lemma_sudo_same(node, c, "systemctl stop auditd && systemctl disable auditd"@);
        }
    }
}

proof fn lemma_noatime_leaves_swap_off(node: NodeInfo)
    ensures
        leaves_swap_off(noatime_steps(node), node),
{
    let plan = noatime_steps(node);
    assert(!contains("mount -o remount,noatime /"@, "swapon"@)) by {
        reveal_strlit("mount -o remount,noatime /");
        lemma_no_swapon("mount -o remount,noatime /"@);
    }
    assert(!contains("sed -i 's/  errors=remount-ro/  noatime,errors=remount-ro/' /etc/fstab"@, "swapon"@)) by {
        reveal_strlit("sed -i 's/  errors=remount-ro/  noatime,errors=remount-ro/' /etc/fstab");
        lemma_no_swapon("sed -i 's/  errors=remount-ro/  noatime,errors=remount-ro/' /etc/fstab"@);
    }
    assert forall|i: int, c: Seq<char>|
        0 <= i < plan.len() && (#[trigger] plan[i] == Step::Exec(#[trigger] sudo(node, c))
            || plan[i] == Step::Attempt(sudo(node, c))) implies !contains(c, "swapon"@) by {
        if i == 0 {
            lemma_sudo_same(node, c, "mount -o remount,noatime /"@);
        } else if i == 1 {
            lemma_sudo_same(node, c, "sed -i 's/  errors=remount-ro/  noatime,errors=remount-ro/' /etc/fstab"@);
        }
    }
}

proof fn lemma_swap_leaves_swap_off(node: NodeInfo)
    ensures
        leaves_swap_off(swap_steps(node), node),
{
    let plan = swap_steps(node);
    assert(!contains("swapoff -a"@, "swapon"@)) by {
        reveal_strlit("swapoff -a");
        lemma_no_swapon("swapoff -a"@);
    }
    assert(!contains("sed -i '/swap/d' /etc/fstab"@, "swapon"@)) by {
        reveal_strlit("sed -i '/swap/d' /etc/fstab");
        lemma_no_swapon("sed -i '/swap/d' /etc/fstab"@);
    }
    assert forall|i: int, c: Seq<char>|
        0 <= i < plan.len() && (#[trigger] plan[i] == Step::Exec(#[trigger] sudo(node, c))
            || plan[i] == Step::Attempt(sudo(node, c))) implies !contains(c, "swapon"@) by {
        if i == 0 {
            lemma_sudo_same(node, c, "swapoff -a"@);
        } else if i == 1 {
            lemma_sudo_same(node, c, "sed -i '/swap/d' /etc/fstab"@);
        }
    }
}

proof fn lemma_sysctl_leaves_swap_off(node: NodeInfo)
    ensures
        leaves_swap_off(sysctl_steps(node), node),
{
    let plan = sysctl_steps(node);
    assert(!contains("mv /tmp/99-pifrost-sysctl.conf /etc/sysctl.d/99-pifrost.conf"@, "swapon"@)) by {
        reveal_strlit("mv /tmp/99-pifrost-sysctl.conf /etc/sysctl.d/99-pifrost.conf");
        lemma_no_swapon("mv /tmp/99-pifrost-sysctl.conf /etc/sysctl.d/99-pifrost.conf"@);
    }
    assert(!contains("sysctl --system"@, "swapon"@)) by {
        reveal_strlit("sysctl --system");
        lemma_no_swapon("sysctl --system"@);
    }
    assert forall|i: int, c: Seq<char>|
        0 <= i < plan.len() && (#[trigger] plan[i] == Step::Exec(#[trigger] sudo(node, c))
            || plan[i] == Step::Attempt(sudo(node, c))) implies !contains(c, "swapon"@) by {
        if i == 1 {
            lemma_sudo_same(node, c, "mv /tmp/99-pifrost-sysctl.conf /etc/sysctl.d/99-pifrost.conf"@);
        } else if i == 2 {
            lemma_sudo_same(node, c, "sysctl --system"@);
        }
    }
}

/// A directory that is mounted switches no swap on, if its name and its options do not
/// speak of that.
proof fn lemma_mount_leaves_swap_off(node: NodeInfo, dir: Seq<char>, opts: Seq<char>)
    requires
        !contains(
            "bash -c \"echo 'tmpfs "@ + dir + " tmpfs "@ + opts + " 0 0' >> /etc/fstab\""@,
            "swapon"@,
        ),
        !contains("mkdir -p "@ + dir, "swapon"@),
        !contains("mount "@ + dir, "swapon"@),
    ensures
        leaves_swap_off(tmpfs_steps(node, dir, opts), node),
{
    let plan = tmpfs_steps(node, dir, opts);
    let line = "bash -c \"echo 'tmpfs "@ + dir + " tmpfs "@ + opts + " 0 0' >> /etc/fstab\""@;
    assert forall|i: int, c: Seq<char>|
        0 <= i < plan.len() && (#[trigger] plan[i] == Step::Exec(#[trigger] sudo(node, c))
            || plan[i] == Step::Attempt(sudo(node, c))) implies !contains(c, "swapon"@) by {
        if i == 1 {
            lemma_sudo_same(node, c, line);
        } else if i == 2 {
            lemma_sudo_same(node, c, "mkdir -p "@ + dir);
        } else if i == 3 {
            lemma_sudo_same(node, c, "mount "@ + dir);
        }
    }
}

/// Plans that follow one another leave swap off if each of them does.
proof fn lemma_both_leave_swap_off(
    a: Seq<Step<Seq<char>>>,
    b: Seq<Step<Seq<char>>>,
    node: NodeInfo,
)
    requires
        leaves_swap_off(a, node),
        leaves_swap_off(b, node),
    ensures
        leaves_swap_off(a + b, node),
{
    let plan = a + b;
    assert forall|i: int, c: Seq<char>|
        0 <= i < plan.len() && (#[trigger] plan[i] == Step::Exec(#[trigger] sudo(node, c))
            || plan[i] == Step::Attempt(sudo(node, c))) implies !contains(c, "swapon"@) by {
        if i < a.len() {
            assert(plan[i] == a[i]);
        } else {
            assert(plan[i] == b[i - a.len()]);
        }
    }
}

#[verifier::rlimit(60)]
proof fn lemma_mounts_leave_swap_off(node: NodeInfo)
    ensures
        leaves_swap_off(tmpfs_mounts_steps(node), node),
{
    reveal_strlit("bash -c \"echo 'tmpfs ");
    reveal_strlit(" tmpfs ");
    reveal_strlit(" 0 0' >> /etc/fstab\"");
    reveal_strlit("mkdir -p ");
    reveal_strlit("mount ");
    reveal_strlit("/var/log");
    reveal_strlit("defaults,noatime,mode=0755,size=100M");
    lemma_no_swapon(
        "bash -c \"echo 'tmpfs "@ + "/var/log"@ + " tmpfs "@ + "defaults,noatime,mode=0755,size=100M"@
            + " 0 0' >> /etc/fstab\""@,
    );
    lemma_no_swapon("mkdir -p "@ + "/var/log"@);
    lemma_no_swapon("mount "@ + "/var/log"@);
    lemma_mount_leaves_swap_off(node, "/var/log"@, "defaults,noatime,mode=0755,size=100M"@);
    reveal_strlit("/tmp");
    reveal_strlit("defaults,noatime,mode=1777,size=500M");
    lemma_no_swapon(
        "bash -c \"echo 'tmpfs "@ + "/tmp"@ + " tmpfs "@ + "defaults,noatime,mode=1777,size=500M"@
            + " 0 0' >> /etc/fstab\""@,
    );
    lemma_no_swapon("mkdir -p "@ + "/tmp"@);
    lemma_no_swapon("mount "@ + "/tmp"@);
    lemma_mount_leaves_swap_off(node, "/tmp"@, "defaults,noatime,mode=1777,size=500M"@);
    reveal_strlit("/var/tmp");
    reveal_strlit("defaults,noatime,mode=1777,size=100M");
    lemma_no_swapon(
        "bash -c \"echo 'tmpfs "@ + "/var/tmp"@ + " tmpfs "@ + "defaults,noatime,mode=1777,size=100M"@
            + " 0 0' >> /etc/fstab\""@,
    );
    lemma_no_swapon("mkdir -p "@ + "/var/tmp"@);
    lemma_no_swapon("mount "@ + "/var/tmp"@);
    lemma_mount_leaves_swap_off(node, "/var/tmp"@, "defaults,noatime,mode=1777,size=100M"@);
    let a = tmpfs_steps(node, "/var/log"@, "defaults,noatime,mode=0755,size=100M"@);
    let b = tmpfs_steps(node, "/tmp"@, "defaults,noatime,mode=1777,size=500M"@);
    let c = tmpfs_steps(node, "/var/tmp"@, "defaults,noatime,mode=1777,size=100M"@);
    let said = seq![Step::<Seq<char>>::Say("    tmpfs → /var/log, /tmp, /var/tmp"@)];
    lemma_both_leave_swap_off(a, b, node);
    lemma_both_leave_swap_off(a + b, c, node);
    lemma_both_leave_swap_off(a + b + c, said, node);
}

} // verus!
