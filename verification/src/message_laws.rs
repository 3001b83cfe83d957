//! What is said while a plan is carried out fits what is done: each line stands next
//! to the step that it speaks of, and what is reported is what was read for it.

use vstd::prelude::*;
use crate::cluster::bootstrap_steps;
use crate::config::{NodeConfig, NodeInfo, Rke2Config};
use crate::packer::NO_BUILDER;
use crate::plan::Step;
use crate::provision::{
    auditd_steps, helm_steps, hostname_steps, journald_steps, noatime_steps, rancher_chart_steps,
    rke2_binary_steps, rke2_config_steps, rke2_service_steps, rke2_steps, sudo, swap_steps,
    sysctl_steps,
};

verus! {

/// Whether a plan has the second step directly behind the first.
pub open spec fn follows(
    plan: Seq<Step<Seq<char>>>,
    first: Step<Seq<char>>,
    second: Step<Seq<char>>,
) -> bool {
    exists|i: int| 0 <= i < plan.len() - 1 && #[trigger] plan[i] == first && plan[i + 1] == second
}

/// Each part of the hardening is reported once its last command has been run, and so
/// is the name of a node.
pub proof fn lemma_hardening_is_reported(node: NodeInfo, hostname: Seq<char>)
    ensures
        follows(
            journald_steps(node),
            Step::Exec(sudo(node, "systemctl restart systemd-journald"@)),
            Step::Say("    journald → volatile"@),
        ),
        follows(
            auditd_steps(node),
            Step::Exec(sudo(node, "systemctl stop auditd && systemctl disable auditd"@)),
            Step::Say("    auditd → disabled"@),
        ),
        follows(
            noatime_steps(node),
            Step::Attempt(
                sudo(
                    node,
                    "sed -i 's/  errors=remount-ro/  noatime,errors=remount-ro/' /etc/fstab"@,
                ),
            ),
            Step::Say("    root → noatime"@),
        ),
        follows(
            swap_steps(node),
            Step::Exec(sudo(node, "sed -i '/swap/d' /etc/fstab"@)),
            Step::Say("    swap → disabled"@),
        ),
        follows(
            sysctl_steps(node),
            Step::Exec(sudo(node, "sysctl --system"@)),
            Step::Say("    sysctl → K8s params"@),
        ),
        follows(
            hostname_steps(node, hostname),
            Step::Exec(sudo(node, "hostnamectl set-hostname "@ + hostname)),
            Step::Say("    hostname → "@ + hostname),
        ),
{
    assert(journald_steps(node)[3] == Step::<Seq<char>>::Exec(
        sudo(node, "systemctl restart systemd-journald"@),
    ));
    assert(auditd_steps(node)[1] is Exec);
    assert(noatime_steps(node)[1] is Attempt);
    assert(swap_steps(node)[1] is Exec);
    assert(sysctl_steps(node)[2] is Exec);
    assert(hostname_steps(node, hostname)[0] is Exec);
}

/// It is said which version is installed, and as what, before that is done; a node
/// that has RKE2 is told apart from it, behind a jump. The configuration is shown
/// before it is written. That the service is enabled or has started is said once it
/// is, and that it has not, before its state is read.
pub proof fn lemma_rke2_is_reported(
    rke2: Rke2Config,
    role: Seq<char>,
    config_yaml: Seq<char>,
    service: Seq<char>,
    node: NodeInfo,
)
    ensures
        ({
            let plan = rke2_binary_steps(rke2, role, node);
            let line = "    RKE2 → installing v"@ + rke2.version@ + " ("@ + role + ")..."@;
            &&& exists|command: Seq<char>| #[trigger]
                follows(plan, Step::Say(line), Step::Exec(command))
            &&& exists|command: Seq<char>| #[trigger]
                follows(plan, Step::Exec(command), Step::Jump(1))
            &&& plan.last() == Step::<Seq<char>>::Say("    RKE2 → already installed"@)
        }),
        follows(
            rke2_config_steps(config_yaml, node),
            Step::Say("    RKE2 config content:\n"@ + config_yaml),
            Step::Upload { content: config_yaml, remote: "/tmp/rke2-config.yaml"@ },
        ),
        ({
            let plan = rke2_service_steps(service, node);
            &&& follows(
                plan,
                Step::Exec(sudo(node, "systemctl enable "@ + service)),
                Step::Say("    RKE2 "@ + service + " → enabled"@),
            )
            &&& follows(
                plan,
                Step::Say("\n!!! RKE2 service failed to start - collecting diagnostics..."@),
                Step::Capture(sudo(node, "systemctl status "@ + service + " --no-pager"@)),
            )
            &&& follows(
                plan,
                Step::Abort("Failed to start "@ + service + " service"@),
                Step::Say("    RKE2 "@ + service + " → started"@),
            )
            &&& plan.last() == Step::<Seq<char>>::Say("    RKE2 "@ + service + " → started"@)
        }),
{
    let a = rke2_binary_steps(rke2, role, node);
    let line = "    RKE2 → installing v"@ + rke2.version@ + " ("@ + role + ")..."@;
    assert(a[1] == Step::<Seq<char>>::Say(line));
    assert(follows(a, Step::Say(line), Step::Exec(a[2]->Exec_0)));
    assert(follows(a, Step::Exec(a[2]->Exec_0), Step::Jump(1)));
    assert(rke2_config_steps(config_yaml, node)[1] is Say);
    let c = rke2_service_steps(service, node);
    assert(c[1] is Exec);
    assert(c[6] is Say);
    assert(c[11] is Abort);
}

/// How many outputs the first `n` steps of a plan keep.
pub open spec fn captures(plan: Seq<Step<Seq<char>>>, n: int) -> nat
    decreases n,
{
    if n <= 0 {
        0
    } else {
        captures(plan, n - 1) + (if plan[n - 1] is Capture {
            1nat
        } else {
            0
        })
    }
}

/// Whether a plan reports, under this heading, the output of this command, which it
/// kept before.
pub open spec fn reports(
    plan: Seq<Step<Seq<char>>>,
    heading: Seq<char>,
    command: Seq<char>,
) -> bool {
    exists|i: int, j: int|
        {
            &&& 0 <= i < j < plan.len()
            &&& #[trigger] plan[i] == Step::Capture(command)
            &&& #[trigger] plan[j] matches Step::Report { heading: h, slot } && h == heading && slot
                == captures(plan, i)
        }
}

/// What is reported is what was read for it: the configuration as it lies on the node,
/// and of a service that did not start its status and its journal.
pub proof fn lemma_reports_show_what_was_read(
    rke2: Rke2Config,
    role: Seq<char>,
    config_yaml: Seq<char>,
    node: NodeInfo,
)
    ensures
        ({
            let plan = rke2_steps(rke2, role, config_yaml, node);
            let service = "rke2-"@ + role;
            &&& reports(
                plan,
                "    RKE2 config → written\n    Actual file content:\n"@,
                sudo(node, "cat /etc/rancher/rke2/config.yaml"@),
            )
            &&& reports(
                plan,
                "\n=== Service Status ===\n"@,
                sudo(node, "systemctl status "@ + service + " --no-pager"@),
            )
            &&& reports(
                plan,
                "\n=== Journal Logs (last 100 lines) ===\n"@,
                sudo(node, "journalctl -xeu "@ + service + " --no-pager -n 100"@),
            )
        }),
{
    let plan = rke2_steps(rke2, role, config_yaml, node);
    reveal_with_fuel(captures, 21);
    assert(captures(plan, 9) == 0);
    assert(captures(plan, 18) == 1);
    assert(captures(plan, 19) == 2);
    assert(plan[9] is Capture && plan[10] is Report);
    assert(plan[18] is Capture && plan[20] is Report);
    assert(plan[19] is Capture && plan[21] is Report);
}

/// The installer of Helm is announced with the place that it is kept in. If it cannot
/// be fetched, or is not there, the failure says so.
pub proof fn lemma_helm_is_reported(node: NodeInfo)
    ensures
        ({
            let plan = helm_steps(node);
            let script = "/home/"@ + node.user@ + "/get-helm.sh"@;
            let fetch = Step::Fetch {
                command: "curl -sfL https://raw.githubusercontent.com/helm/helm/main/scripts/get-helm-3 -o "@
                    + script,
                message: "Failed to download Helm script: "@,
            };
            let check = Step::Check {
                command: "test -f "@ + script,
                message: "Helm script was not created at "@ + script,
            };
            let line = Step::Say("    downloading Helm install script to "@ + script + "..."@);
            let run = Step::Exec(sudo(node, "bash "@ + script));
            &&& follows(plan, Step::Say("    installing Helm..."@), line)
            &&& follows(plan, line, fetch)
            &&& follows(plan, fetch, check)
            &&& follows(plan, Step::Say("    executing Helm install script with sudo..."@), run)
        }),
{
    let plan = helm_steps(node);
    let script = "/home/"@ + node.user@ + "/get-helm.sh"@;
    assert("curl -sfL "@ + "https://raw.githubusercontent.com/helm/helm/main/scripts/get-helm-3"@
        + " -o "@ + script
        =~= "curl -sfL https://raw.githubusercontent.com/helm/helm/main/scripts/get-helm-3 -o "@
        + script) by {
        reveal_strlit("curl -sfL ");
        reveal_strlit("https://raw.githubusercontent.com/helm/helm/main/scripts/get-helm-3");
        reveal_strlit(" -o ");
        reveal_strlit(
            "curl -sfL https://raw.githubusercontent.com/helm/helm/main/scripts/get-helm-3 -o ",
        );
    }
    assert(plan[1] is Say && plan[2] is Say && plan[3] is Fetch && plan[5] is Say);
}

/// Each part of the deployment of Rancher is announced before it is done, and at the
/// end the address is said under which it is found.
pub proof fn lemma_rancher_is_reported(hostname: Seq<char>, node: NodeInfo)
    ensures
        ({
            let plan = rancher_chart_steps(hostname, node);
            &&& exists|probe: Step<Seq<char>>|
                probe is Probe && #[trigger] follows(
                    plan,
                    Step::Say("    installing cert-manager..."@),
                    probe,
                )
            &&& exists|command: Seq<char>| #[trigger]
                follows(
                    plan,
                    Step::Say("    waiting for cert-manager..."@),
                    Step::Exec(command),
                )
            &&& exists|command: Seq<char>| #[trigger]
                follows(plan, Step::Say("    installing Rancher..."@), Step::Exec(command))
            &&& plan.last() == Step::<Seq<char>>::Say("    Rancher UI: https://"@ + hostname)
        }),
{
    let plan = rancher_chart_steps(hostname, node);
    assert(plan[2] is Say && plan[5] is Say && plan[7] is Say);
    assert(follows(plan, Step::Say("    installing cert-manager..."@), plan[3]));
    assert(follows(
        plan,
        Step::Say("    waiting for cert-manager..."@),
        Step::Exec(plan[6]->Exec_0),
    ));
    assert(follows(plan, Step::Say("    installing Rancher..."@), Step::Exec(plan[8]->Exec_0)));
}

/// The first server is announced with its address before it is connected to, and once
/// it is made, that it is waited for.
pub proof fn lemma_first_server_is_announced(cfg: NodeConfig)
    requires
        cfg.cluster.server_nodes@.len() > 0,
    ensures
        ({
            let plan = bootstrap_steps(cfg);
            let first = cfg.cluster.server_nodes@[0];
            &&& follows(
                plan,
                Step::Say("\n--- Bootstrapping first server "@ + first.host@ + " ---"@),
                Step::Connect { node: 0, user: first.user@, host: first.host@ },
            )
            &&& follows(
                plan,
                Step::Say("\n--- Waiting for RKE2 to start on first server ---"@),
                Step::Sleep(15),
            )
        }),
{
    let plan = bootstrap_steps(cfg);
    assert(plan[1] is Say && plan[2] is Connect);
    let n = plan.len() as int;
    assert(plan[n - 3] is Say && plan[n - 2] is Sleep);
}

/// Where an image cannot be built, both ways out are named.
pub proof fn lemma_missing_builder_is_reported()
    ensures
        NO_BUILDER@ == "Nix is not installed and Docker is not available.\n"@
            + "Install Nix: https://nixos.org/download.html\n"@
            + "Or install Docker Desktop for Nix-in-Docker fallback."@,
{
    reveal_strlit(
        "Nix is not installed and Docker is not available.\nInstall Nix: https://nixos.org/download.html\nOr install Docker Desktop for Nix-in-Docker fallback.",
    );
    reveal_strlit("Nix is not installed and Docker is not available.\n");
    reveal_strlit("Install Nix: https://nixos.org/download.html\n");
    reveal_strlit("Or install Docker Desktop for Nix-in-Docker fallback.");
    assert(NO_BUILDER@ =~= "Nix is not installed and Docker is not available.\n"@
        + "Install Nix: https://nixos.org/download.html\n"@
        + "Or install Docker Desktop for Nix-in-Docker fallback."@);
}

} // verus!
