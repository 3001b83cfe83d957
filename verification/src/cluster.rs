//! The provisioning of a whole cluster: its servers, its workers, and Rancher.

use vstd::prelude::*;
use crate::config::{HardeningConfig, NodeConfig, NodeInfo};
use crate::plan::{
    connected_by, connections, extend, is_block, is_good, is_sound, is_well,
    lemma_connection_is_listed, lemma_connections_are_made, lemma_connections_of_both,
    lemma_every_reply_counts, lemma_good_reply_keeps_well, lemma_no_connections, lemma_sound_both,
    plan_of, say, skip_of, stages_uploads, start_with, stays_inside, token_in, Action, Progress,
    ProgressView, Reply, Step,
};
use crate::provision::{
    deploy_rancher, hardening_steps, hostname_of, hostname_steps, if_set, lemma_rancher_is_block,
    lemma_server_is_block, lemma_worker_is_block, provision_single_node,
    provision_single_node_agent, rancher_steps, server_config_lines, server_steps, sudo, with_sudo,
    worker_steps,
};
use crate::ssh::{CommandOutput, Judge, SshCall, SshClient};
use crate::text::{concat2, concat3, decimal, decimal_of, joined};

verus! {

/// The command that prints the token with which nodes join.
pub const READ_TOKEN: &'static str =
    "cat /var/lib/rancher/rke2/server/node-token 2>/dev/null";

/// How a node joins the cluster.
pub open spec fn join_text(first_host: Seq<char>, token: Seq<char>) -> Seq<char> {
    "server: https://"@ + first_host + ":9345\ntoken: "@ + token
}

/// How a node joins the cluster.
pub fn join_config(first_host: &str, token: &str) -> (r: String)
    ensures
        r@ == join_text(first_host@, token@),
{
    let mut r = concat3("server: https://", first_host, ":9345\ntoken: ");
    r.append(token);
    r
}

/// The step that connects to a node.
pub open spec fn connect_step(number: usize, node: NodeInfo) -> Step<Seq<char>> {
    Step::Connect { node: number, user: node.user@, host: node.host@ }
}

fn connect_to(number: usize, node: &NodeInfo) -> (r: Step<String>)
    ensures
        r@ == connect_step(number, *node),
{
    Step::Connect { node: number, user: node.user.clone(), host: node.host.clone() }
}

/// The steps that make the first server, up to the token with which the other
/// nodes join.
pub open spec fn bootstrap_steps(cfg: NodeConfig) -> Seq<Step<Seq<char>>> {
    let first = cfg.cluster.server_nodes@[0];
    seq![
        Step::Say(
            ">>> Provisioning cluster '"@ + cfg.cluster.name@ + "' ("@ + decimal(
                cfg.nodes().len(),
            ) + " nodes: "@ + decimal(cfg.cluster.server_nodes@.len()) + " servers + "@ + decimal(
                cfg.cluster.worker_nodes@.len(),
            ) + " workers)"@,
        ),
        Step::Say("\n--- Bootstrapping first server "@ + first.host@ + " ---"@),
        connect_step(0, first),
    ] + server_steps(
        cfg.hardening,
        cfg.rke2,
        None,
        first,
        cfg.cluster.use_servers_as_workers,
    ) + seq![
        Step::Say("\n--- Waiting for RKE2 to start on first server ---"@),
        Step::Sleep(15),
        Step::AwaitToken(sudo(first, READ_TOKEN@)),
    ]
}

/// The steps that make a server that joins the cluster.
pub open spec fn joining_server_steps(cfg: NodeConfig, token: Seq<char>, i: int) -> Seq<
    Step<Seq<char>>,
> {
    let servers = cfg.cluster.server_nodes@;
    seq![
        Step::Say(
            "\n--- Joining server "@ + decimal((i + 1) as nat) + "/"@ + decimal(servers.len())
                + " ("@ + servers[i].host@ + ") ---"@,
        ),
        connect_step(i as usize, servers[i]),
    ] + server_steps(
        cfg.hardening,
        cfg.rke2,
        Some(join_text(servers[0].host@, token)),
        servers[i],
        cfg.cluster.use_servers_as_workers,
    )
}

/// The steps that make a worker.
pub open spec fn joining_worker_steps(cfg: NodeConfig, token: Seq<char>, i: int) -> Seq<
    Step<Seq<char>>,
> {
    let servers = cfg.cluster.server_nodes@;
    let workers = cfg.cluster.worker_nodes@;
    seq![
        Step::Say(
            "\n--- Provisioning worker "@ + decimal((i + 1) as nat) + "/"@ + decimal(workers.len())
                + " ("@ + workers[i].host@ + ") ---"@,
        ),
        connect_step((servers.len() + i) as usize, workers[i]),
    ] + worker_steps(cfg.hardening, cfg.rke2, join_text(servers[0].host@, token), workers[i])
}

/// The steps that make the servers after the first, up to the `n`th.
pub open spec fn servers_steps(cfg: NodeConfig, token: Seq<char>, n: int) -> Seq<Step<Seq<char>>>
    decreases n,
{
    if n <= 1 {
        Seq::empty()
    } else {
        servers_steps(cfg, token, n - 1) + joining_server_steps(cfg, token, n - 1)
    }
}

/// The steps that make the first `n` workers.
pub open spec fn workers_steps(cfg: NodeConfig, token: Seq<char>, n: int) -> Seq<Step<Seq<char>>>
    decreases n,
{
    if n <= 0 {
        Seq::empty()
    } else {
        workers_steps(cfg, token, n - 1) + joining_worker_steps(cfg, token, n - 1)
    }
}

/// Whether Rancher is deployed.
pub open spec fn with_rancher(cfg: NodeConfig, rancher_only: bool) -> bool {
    cfg.rancher.deploy || rancher_only
}

/// The steps with which the work ends: Rancher, where it is wanted, and a
/// report.
pub open spec fn closing_steps(cfg: NodeConfig, rancher_only: bool) -> Seq<Step<Seq<char>>> {
    let first = cfg.cluster.server_nodes@[0];
    if_set(
        with_rancher(cfg, rancher_only),
        seq![Step::Say("\n--- Deploying Rancher dashboard ---"@), connect_step(0, first)]
            + rancher_steps(cfg.rancher, first),
    ) + (if rancher_only {
        seq![Step::Announce("✓ Rancher deployment complete!"@)]
    } else {
        seq![
            Step::Announce("✓ Cluster provisioning complete!"@),
            Step::Say("  First server:  ssh "@ + first.user@ + "@"@ + first.host@),
            Step::Say("  RKE2 config:   /etc/rancher/rke2/rke2.yaml"@),
        ]
    }) + if_set(
        with_rancher(cfg, rancher_only),
        seq![
            Step::Say(
                "  Rancher UI:    https://"@ + cfg.rancher.hostname@
                    + " (user: admin / password: admin)"@,
            ),
        ],
    )
}

/// The steps that follow once the token is known.
pub open spec fn join_steps(cfg: NodeConfig, token: Seq<char>) -> Seq<Step<Seq<char>>> {
    seq![Step::Say("    join token obtained"@)] + servers_steps(
        cfg,
        token,
        cfg.cluster.server_nodes@.len() as int,
    ) + workers_steps(cfg, token, cfg.cluster.worker_nodes@.len() as int) + closing_steps(
        cfg,
        false,
    )
}

/// Whether a cluster has a server, and not more nodes than can be numbered.
pub open spec fn is_cluster(cfg: NodeConfig) -> bool {
    cfg.cluster.server_nodes@.len() > 0 && cfg.nodes().len() <= usize::MAX
}

fn bootstrap_plan(cfg: &NodeConfig) -> (r: Vec<Step<String>>)
    requires
        is_cluster(*cfg),
    ensures
        plan_of(r@) == bootstrap_steps(*cfg),
{
    let first = &cfg.cluster.server_nodes[0];
    let mut title = concat2(">>> Provisioning cluster '", cfg.cluster.name.as_str());
    title.append("' (");
    title.append(decimal_of(cfg.total_nodes() as u64).as_str());
    title.append(" nodes: ");
    title.append(decimal_of(cfg.cluster.server_nodes.len() as u64).as_str());
    title.append(" servers + ");
    title.append(decimal_of(cfg.cluster.worker_nodes.len() as u64).as_str());
    title.append(" workers)");
    let mut p: Vec<Step<String>> = Vec::new();
    p.push(Step::Say(title));
    p.push(
        Step::Say(concat3("\n--- Bootstrapping first server ", first.host.as_str(), " ---")),
    );
    p.push(connect_to(0, first));
    assert(plan_of(p@) =~= seq![
        Step::Say(title@),
        Step::Say("\n--- Bootstrapping first server "@ + first.host@ + " ---"@),
        connect_step(0, *first),
    ]);
    extend(
        &mut p,
        provision_single_node(
            &cfg.hardening,
            &cfg.rke2,
            None,
            first,
            cfg.cluster.use_servers_as_workers,
        ),
    );
    let mut wait: Vec<Step<String>> = Vec::new();
    wait.push(say("\n--- Waiting for RKE2 to start on first server ---"));
    wait.push(Step::Sleep(15));
    wait.push(Step::AwaitToken(with_sudo(first, READ_TOKEN)));
    assert(plan_of(wait@) =~= seq![
        Step::Say("\n--- Waiting for RKE2 to start on first server ---"@),
        Step::Sleep(15),
        Step::AwaitToken(sudo(*first, READ_TOKEN@)),
    ]);
    extend(&mut p, wait);
    p
}

fn place(kind: &str, i: usize, total: usize, host: &str) -> (r: String)
    requires
        i < total,
    ensures
        r@ == kind@ + decimal((i + 1) as nat) + "/"@ + decimal(total as nat) + " ("@ + host@
            + ") ---"@,
{
    let mut r = kind.to_string();
    r.append(decimal_of((i + 1) as u64).as_str());
    r.append("/");
    r.append(decimal_of(total as u64).as_str());
    r.append(" (");
    r.append(host);
    r.append(") ---");
    r
}

fn arrive(title: String, number: usize, node: &NodeInfo) -> (r: Vec<Step<String>>)
    ensures
        plan_of(r@) == seq![Step::Say(title@), connect_step(number, *node)],
{
    let mut p: Vec<Step<String>> = Vec::new();
    p.push(Step::Say(title));
    p.push(connect_to(number, node));
    assert(plan_of(p@) =~= seq![Step::Say(title@), connect_step(number, *node)]);
    p
}

fn joining_server_plan(cfg: &NodeConfig, token: &str, i: usize) -> (r: Vec<Step<String>>)
    requires
        is_cluster(*cfg),
        i < cfg.cluster.server_nodes@.len(),
    ensures
        plan_of(r@) == joining_server_steps(*cfg, token@, i as int),
{
    let servers = &cfg.cluster.server_nodes;
    let node = &servers[i];
    let title = place("\n--- Joining server ", i, servers.len(), node.host.as_str());
    let mut p = arrive(title, i, node);
    let join = join_config(servers[0].host.as_str(), token);
    extend(
        &mut p,
        provision_single_node(
            &cfg.hardening,
            &cfg.rke2,
            Some(join.as_str()),
            node,
            cfg.cluster.use_servers_as_workers,
        ),
    );
    p
}

fn joining_worker_plan(cfg: &NodeConfig, token: &str, i: usize) -> (r: Vec<Step<String>>)
    requires
        is_cluster(*cfg),
        i < cfg.cluster.worker_nodes@.len(),
    ensures
        plan_of(r@) == joining_worker_steps(*cfg, token@, i as int),
{
    let servers = &cfg.cluster.server_nodes;
    let workers = &cfg.cluster.worker_nodes;
    let node = &workers[i];
    let title = place("\n--- Provisioning worker ", i, workers.len(), node.host.as_str());
    let mut p = arrive(title, servers.len() + i, node);
    let join = join_config(servers[0].host.as_str(), token);
    extend(
        &mut p,
        provision_single_node_agent(&cfg.hardening, &cfg.rke2, join.as_str(), node),
    );
    p
}

fn closing_plan(cfg: &NodeConfig, rancher_only: bool) -> (r: Vec<Step<String>>)
    requires
        is_cluster(*cfg),
    ensures
        plan_of(r@) == closing_steps(*cfg, rancher_only),
{
    let first = &cfg.cluster.server_nodes[0];
    let rancher = cfg.rancher.deploy || rancher_only;
    let mut p: Vec<Step<String>> = Vec::new();
    if rancher {
        p = arrive("\n--- Deploying Rancher dashboard ---".to_string(), 0, first);
        extend(&mut p, deploy_rancher(&cfg.rancher, first));
    }
    let ghost deployed = if_set(
        rancher,
        seq![Step::Say("\n--- Deploying Rancher dashboard ---"@), connect_step(0, *first)]
            + rancher_steps(cfg.rancher, *first),
    );
    assert(plan_of(p@) =~= deployed);
    let mut report: Vec<Step<String>> = Vec::new();
    if rancher_only {
        report.push(Step::Announce("✓ Rancher deployment complete!".to_string()));
        assert(plan_of(report@) =~= seq![
            Step::<Seq<char>>::Announce("✓ Rancher deployment complete!"@),
        ]);
    } else {
        report.push(Step::Announce("✓ Cluster provisioning complete!".to_string()));
        let mut line = concat3("  First server:  ssh ", first.user.as_str(), "@");
        line.append(first.host.as_str());
        report.push(Step::Say(line));
        report.push(say("  RKE2 config:   /etc/rancher/rke2/rke2.yaml"));
        assert(plan_of(report@) =~= seq![
            Step::Announce("✓ Cluster provisioning complete!"@),
            Step::Say("  First server:  ssh "@ + first.user@ + "@"@ + first.host@),
            Step::Say("  RKE2 config:   /etc/rancher/rke2/rke2.yaml"@),
        ]);
    }
    extend(&mut p, report);
    let mut ui: Vec<Step<String>> = Vec::new();
    if rancher {
        ui.push(
            Step::Say(
                concat3(
                    "  Rancher UI:    https://",
                    cfg.rancher.hostname.as_str(),
                    " (user: admin / password: admin)",
                ),
            ),
        );
    }
    assert(plan_of(ui@) =~= if_set(
        rancher,
        seq![
            Step::Say(
                "  Rancher UI:    https://"@ + cfg.rancher.hostname@
                    + " (user: admin / password: admin)"@,
            ),
        ],
    ));
    extend(&mut p, ui);
    p
}

fn join_plan(cfg: &NodeConfig, token: &str) -> (r: Vec<Step<String>>)
    requires
        is_cluster(*cfg),
    ensures
        plan_of(r@) == join_steps(*cfg, token@),
{
    let mut p = start_with("    join token obtained");
    let ghost line = plan_of(p@);
    let mut i: usize = 1;
    assert(line + servers_steps(*cfg, token@, 1) =~= line);
    while i < cfg.cluster.server_nodes.len()
        invariant
            is_cluster(*cfg),
            1 <= i <= cfg.cluster.server_nodes@.len(),
            plan_of(p@) == line + servers_steps(*cfg, token@, i as int),
        decreases cfg.cluster.server_nodes@.len() - i,
    {
        extend(&mut p, joining_server_plan(cfg, token, i));
        i += 1;
        assert(plan_of(p@) =~= line + servers_steps(*cfg, token@, i as int));
    }
    let ghost servers = plan_of(p@);
    let mut k: usize = 0;
    assert(servers + workers_steps(*cfg, token@, 0) =~= servers);
    while k < cfg.cluster.worker_nodes.len()
        invariant
            is_cluster(*cfg),
            k <= cfg.cluster.worker_nodes@.len(),
            plan_of(p@) == servers + workers_steps(*cfg, token@, k as int),
        decreases cfg.cluster.worker_nodes@.len() - k,
    {
        extend(&mut p, joining_worker_plan(cfg, token, k));
        k += 1;
        assert(plan_of(p@) =~= servers + workers_steps(*cfg, token@, k as int));
    }
    extend(&mut p, closing_plan(cfg, false));
    p
}

/// Whether a plan can be carried out on a cluster of `n` nodes without skipping
/// one, and stages what it writes.
pub open spec fn is_plan_for(plan: Seq<Step<Seq<char>>>, n: nat) -> bool {
    &&& is_sound(plan)
    &&& forall|k: int| 0 <= k < connections(plan).len() ==> #[trigger] connections(plan)[k] < n
}

proof fn lemma_title_and_connection(title: Seq<char>, number: usize, node: NodeInfo)
    ensures
        is_sound(seq![Step::Say(title), connect_step(number, node)]),
        connections(seq![Step::Say(title), connect_step(number, node)]) == seq![number],
{
    let both = seq![Step::Say(title), connect_step(number, node)];
    let one = seq![Step::<Seq<char>>::Say(title)];
    reveal_with_fuel(connections, 3);
    assert(both.drop_last() =~= one);
    assert(one.drop_last() =~= Seq::<Step<Seq<char>>>::empty());
    assert(connections(both) =~= seq![number]);
}

proof fn lemma_arrival(
    title: Seq<char>,
    number: usize,
    node: NodeInfo,
    block: Seq<Step<Seq<char>>>,
)
    requires
        is_block(block),
    ensures
        ({
            let all = seq![Step::Say(title), connect_step(number, node)] + block;
            &&& is_sound(all)
            &&& connections(all) == seq![number]
        }),
{
    let front = seq![Step::Say(title), connect_step(number, node)];
    lemma_title_and_connection(title, number, node);
    lemma_sound_both(front, block);
    lemma_no_connections(block);
    assert(connections(front + block) =~= seq![number]);
}

proof fn lemma_bootstrap(cfg: NodeConfig)
    requires
        is_cluster(cfg),
    ensures
        is_plan_for(bootstrap_steps(cfg), cfg.nodes().len()),
        connections(bootstrap_steps(cfg)) == seq![0usize],
        bootstrap_steps(cfg).len() > 0,
        bootstrap_steps(cfg).last() is AwaitToken,
        stays_inside(bootstrap_steps(cfg).drop_last()),
{
    let all = bootstrap_steps(cfg);
    let first = cfg.cluster.server_nodes@[0];
    let block = server_steps(
        cfg.hardening,
        cfg.rke2,
        None,
        first,
        cfg.cluster.use_servers_as_workers,
    );
    lemma_server_is_block(
        cfg.hardening,
        cfg.rke2,
        None,
        first,
        cfg.cluster.use_servers_as_workers,
    );
    let title = all[0]->Say_0;
    let second = all[1]->Say_0;
    let line = seq![Step::<Seq<char>>::Say(title)];
    let arrival = seq![Step::Say(second), connect_step(0, first)] + block;
    let pause = seq![
        Step::Say("\n--- Waiting for RKE2 to start on first server ---"@),
        Step::<Seq<char>>::Sleep(15),
    ];
    let ask = seq![Step::<Seq<char>>::AwaitToken(sudo(first, READ_TOKEN@))];
    lemma_arrival(second, 0, first, block);
    assert(is_block(line));
    assert(is_block(pause));
    assert(is_block(ask));
    assert(all =~= line + arrival + pause + ask);
    assert(all.drop_last() =~= line + arrival + pause);
    lemma_sound_both(line, arrival);
    lemma_sound_both(line + arrival, pause);
    lemma_sound_both(line + arrival + pause, ask);
    lemma_no_connections(line);
    lemma_no_connections(pause);
    lemma_no_connections(ask);
    assert(connections(all) =~= seq![0usize]);
}

/// The numbers from `first` on, `count` of them.
spec fn numbers(first: nat, count: nat) -> Seq<usize> {
    Seq::new(count, |i: int| (first + i) as usize)
}

/// A plan for one more node, after a plan for the nodes before it.
proof fn lemma_next_node(
    before: Seq<Step<Seq<char>>>,
    last: Seq<Step<Seq<char>>>,
    first: nat,
    count: nat,
)
    requires
        is_sound(before),
        is_sound(last),
        connections(before) == numbers(first, count),
        connections(last) == seq![(first + count) as usize],
    ensures
        is_sound(before + last),
        connections(before + last) == numbers(first, count + 1),
{
    lemma_sound_both(before, last);
    assert(numbers(first, count) + seq![(first + count) as usize] =~= numbers(first, count + 1));
}

proof fn lemma_joining_server(cfg: NodeConfig, token: Seq<char>, i: int)
    requires
        is_cluster(cfg),
        0 <= i < cfg.cluster.server_nodes@.len(),
    ensures
        is_sound(joining_server_steps(cfg, token, i)),
        connections(joining_server_steps(cfg, token, i)) == seq![i as usize],
{
    let servers = cfg.cluster.server_nodes@;
    let join = Some(join_text(servers[0].host@, token));
    let title = "\n--- Joining server "@ + decimal((i + 1) as nat) + "/"@ + decimal(servers.len())
        + " ("@ + servers[i].host@ + ") ---"@;
    lemma_server_is_block(
        cfg.hardening,
        cfg.rke2,
        join,
        servers[i],
        cfg.cluster.use_servers_as_workers,
    );
    lemma_arrival(
        title,
        i as usize,
        servers[i],
        server_steps(
            cfg.hardening,
            cfg.rke2,
            join,
            servers[i],
            cfg.cluster.use_servers_as_workers,
        ),
    );
}

proof fn lemma_servers(cfg: NodeConfig, token: Seq<char>, n: int)
    requires
        is_cluster(cfg),
        1 <= n <= cfg.cluster.server_nodes@.len(),
    ensures
        is_sound(servers_steps(cfg, token, n)),
        connections(servers_steps(cfg, token, n)) == numbers(1, (n - 1) as nat),
    decreases n,
{
    if n == 1 {
        assert(connections(servers_steps(cfg, token, n)) =~= numbers(1, 0));
    } else {
        lemma_servers(cfg, token, n - 1);
        lemma_joining_server(cfg, token, n - 1);
        lemma_next_node(
            servers_steps(cfg, token, n - 1),
            joining_server_steps(cfg, token, n - 1),
            1,
            (n - 2) as nat,
        );
    }
}

proof fn lemma_joining_worker(cfg: NodeConfig, token: Seq<char>, i: int)
    requires
        is_cluster(cfg),
        0 <= i < cfg.cluster.worker_nodes@.len(),
    ensures
        is_sound(joining_worker_steps(cfg, token, i)),
        connections(joining_worker_steps(cfg, token, i)) == seq![
            (cfg.cluster.server_nodes@.len() + i) as usize,
        ],
{
    let servers = cfg.cluster.server_nodes@;
    let workers = cfg.cluster.worker_nodes@;
    let join = join_text(servers[0].host@, token);
    let title = "\n--- Provisioning worker "@ + decimal((i + 1) as nat) + "/"@ + decimal(
        workers.len(),
    ) + " ("@ + workers[i].host@ + ") ---"@;
    lemma_worker_is_block(cfg.hardening, cfg.rke2, join, workers[i]);
    lemma_arrival(
        title,
        (servers.len() + i) as usize,
        workers[i],
        worker_steps(cfg.hardening, cfg.rke2, join, workers[i]),
    );
}

proof fn lemma_workers(cfg: NodeConfig, token: Seq<char>, n: int)
    requires
        is_cluster(cfg),
        0 <= n <= cfg.cluster.worker_nodes@.len(),
    ensures
        is_sound(workers_steps(cfg, token, n)),
        connections(workers_steps(cfg, token, n)) == numbers(
            cfg.cluster.server_nodes@.len(),
            n as nat,
        ),
    decreases n,
{
    let first = cfg.cluster.server_nodes@.len();
    if n == 0 {
        assert(connections(workers_steps(cfg, token, n)) =~= numbers(first, 0));
    } else {
        lemma_workers(cfg, token, n - 1);
        lemma_joining_worker(cfg, token, n - 1);
        lemma_next_node(
            workers_steps(cfg, token, n - 1),
            joining_worker_steps(cfg, token, n - 1),
            first,
            (n - 1) as nat,
        );
    }
}

/// The connections that are made for Rancher's sake.
pub open spec fn rancher_connection(cfg: NodeConfig, rancher_only: bool) -> Seq<usize> {
    if with_rancher(cfg, rancher_only) {
        seq![0usize]
    } else {
        Seq::empty()
    }
}

proof fn lemma_closing(cfg: NodeConfig, rancher_only: bool)
    requires
        is_cluster(cfg),
    ensures
        is_plan_for(closing_steps(cfg, rancher_only), cfg.nodes().len()),
        connections(closing_steps(cfg, rancher_only)) == rancher_connection(cfg, rancher_only),
{
    let first = cfg.cluster.server_nodes@[0];
    let title = "\n--- Deploying Rancher dashboard ---"@;
    let nothing = Seq::<Step<Seq<char>>>::empty();
    lemma_rancher_is_block(cfg.rancher, first);
    lemma_arrival(title, 0, first, rancher_steps(cfg.rancher, first));
    let deploy = if_set(
        with_rancher(cfg, rancher_only),
        seq![Step::Say(title), connect_step(0, first)] + rancher_steps(cfg.rancher, first),
    );
    let report = if rancher_only {
        seq![Step::Announce("✓ Rancher deployment complete!"@)]
    } else {
        seq![
            Step::Announce("✓ Cluster provisioning complete!"@),
            Step::Say("  First server:  ssh "@ + first.user@ + "@"@ + first.host@),
            Step::Say("  RKE2 config:   /etc/rancher/rke2/rke2.yaml"@),
        ]
    };
    let ui = if_set(
        with_rancher(cfg, rancher_only),
        seq![
            Step::Say(
                "  Rancher UI:    https://"@ + cfg.rancher.hostname@
                    + " (user: admin / password: admin)"@,
            ),
        ],
    );
    assert(is_block(nothing));
    assert(is_block(report));
    assert(is_block(ui));
    lemma_no_connections(nothing);
    lemma_no_connections(report);
    lemma_no_connections(ui);
    lemma_sound_both(deploy, report);
    lemma_sound_both(deploy + report, ui);
    assert(connections(closing_steps(cfg, rancher_only)) =~= rancher_connection(
        cfg,
        rancher_only,
    ));
}

proof fn lemma_join(cfg: NodeConfig, token: Seq<char>)
    requires
        is_cluster(cfg),
    ensures
        is_plan_for(join_steps(cfg, token), cfg.nodes().len()),
        connections(join_steps(cfg, token)) == Seq::new(
            (cfg.nodes().len() - 1) as nat,
            |i: int| (i + 1) as usize,
        ) + rancher_connection(cfg, false),
{
    let s = cfg.cluster.server_nodes@.len() as int;
    let w = cfg.cluster.worker_nodes@.len() as int;
    let line = seq![Step::<Seq<char>>::Say("    join token obtained"@)];
    let servers = servers_steps(cfg, token, s);
    let workers = workers_steps(cfg, token, w);
    let closing = closing_steps(cfg, false);
    assert(is_block(line));
    lemma_no_connections(line);
    lemma_servers(cfg, token, s);
    lemma_workers(cfg, token, w);
    lemma_closing(cfg, false);
    lemma_sound_both(line, servers);
    lemma_sound_both(line + servers, workers);
    lemma_sound_both(line + servers + workers, closing);
    assert(connections(join_steps(cfg, token)) =~= Seq::new(
        (cfg.nodes().len() - 1) as nat,
        |i: int| (i + 1) as usize,
    ) + rancher_connection(cfg, false));
}

/// A cluster is provisioned node by node: first all servers and then all
/// workers, each once and in the order in which they are configured, and last of
/// all the first server again, where Rancher is wanted.
pub proof fn lemma_nodes_in_order(cfg: NodeConfig, token: Seq<char>)
    requires
        is_cluster(cfg),
    ensures
        connections(bootstrap_steps(cfg) + join_steps(cfg, token)) == Seq::new(
            cfg.nodes().len(),
            |i: int| i as usize,
        ) + rancher_connection(cfg, false),
{
    lemma_bootstrap(cfg);
    lemma_join(cfg, token);
    lemma_connections_of_both(bootstrap_steps(cfg), join_steps(cfg, token));
    assert(connections(bootstrap_steps(cfg) + join_steps(cfg, token)) =~= Seq::new(
        cfg.nodes().len(),
        |i: int| i as usize,
    ) + rancher_connection(cfg, false));
}

/// Where only Rancher is wanted, no other node than the first server is touched.
pub proof fn lemma_rancher_only_touches_first(cfg: NodeConfig)
    requires
        is_cluster(cfg),
    ensures
        connections(closing_steps(cfg, true)) == seq![0usize],
{
    lemma_closing(cfg, true);
}

/// Files are written in the directory for temporary files and nowhere else.
pub proof fn lemma_uploads_are_staged(cfg: NodeConfig, token: Seq<char>, rancher_only: bool)
    requires
        is_cluster(cfg),
    ensures
        stages_uploads(bootstrap_steps(cfg)),
        stages_uploads(join_steps(cfg, token)),
        stages_uploads(closing_steps(cfg, rancher_only)),
{
    lemma_bootstrap(cfg);
    lemma_join(cfg, token);
    lemma_closing(cfg, rancher_only);
}

/// The cluster has no server.
#[derive(Debug, Clone, Copy, PartialEq, Eq, Structural)]
pub struct NoServers;

impl NoServers {
    /// The text that reports the error.
    pub fn message(self) -> (r: String)
        ensures
            r@ == "At least one server (control-plane) node is required"@,
    {
        "At least one server (control-plane) node is required".to_string()
    }
}

/// The provisioning of a cluster: the plan that is being carried out, and what
/// follows it.
#[derive(Debug)]
pub struct Provisioner<'a> {
    cfg: &'a NodeConfig,
    joining: bool,
    progress: Progress,
}

/// What a [`Provisioner`] holds.
pub struct ProvisionerView {
    /// The cluster.
    pub cfg: NodeConfig,
    /// Whether the plan is the last one.
    pub joining: bool,
    /// The plan.
    pub progress: ProgressView,
}

impl<'a> View for Provisioner<'a> {
    type V = ProvisionerView;

    closed spec fn view(&self) -> ProvisionerView {
        ProvisionerView { cfg: *self.cfg, joining: self.joining, progress: self.progress@ }
    }
}

impl ProvisionerView {
    /// The state in which the work begins.
    pub open spec fn start(cfg: NodeConfig, rancher_only: bool) -> ProvisionerView {
        ProvisionerView {
            cfg,
            joining: rancher_only,
            progress: ProgressView::start(
                if rancher_only {
                    closing_steps(cfg, true)
                } else {
                    bootstrap_steps(cfg)
                },
            ),
        }
    }

    /// Whether the state is one that the work can reach.
    pub open spec fn valid(self) -> bool {
        &&& is_cluster(self.cfg)
        &&& self.progress.valid()
        &&& is_plan_for(self.progress.steps, self.cfg.nodes().len())
        &&& self.progress.node < self.cfg.nodes().len()
        &&& !self.joining ==> {
            &&& self.progress.steps == bootstrap_steps(self.cfg)
            &&& !self.progress.over() || self.progress.failure is Some
        }
    }

    /// What is to be done next.
    pub open spec fn action(self) -> Action<Seq<char>> {
        self.progress.action()
    }

    /// The state after a reply. When the first server has given its token, the
    /// other nodes join with it.
    pub open spec fn advance(self, reply: Reply<Seq<char>>) -> ProvisionerView {
        let progress = self.progress.advance(reply);
        if !self.joining && progress.action() is Finished {
            ProvisionerView {
                joining: true,
                progress: ProgressView::start(join_steps(self.cfg, progress.token->0)),
                ..self
            }
        } else {
            ProvisionerView { progress, ..self }
        }
    }
}

proof fn lemma_progress_stays_on_nodes(p: ProgressView, reply: Reply<Seq<char>>, n: nat)
    requires
        p.valid(),
        is_plan_for(p.steps, n),
        p.node < n,
    ensures
        p.advance(reply).node < n,
        p.advance(reply).steps == p.steps,
{
    if !p.over() && p.steps[p.at] is Connect {
        lemma_connection_is_listed(p.steps, p.at);
        let node = p.steps[p.at]->Connect_node;
        let all = connections(p.steps);
        let k = choose|k: int| 0 <= k < all.len() && all[k] == node;
        assert(all[k] < n);
    }
}

proof fn lemma_bootstrap_ends_with_token(
    cfg: NodeConfig,
    p: ProgressView,
    reply: Reply<Seq<char>>,
)
    requires
        is_cluster(cfg),
        p.valid(),
        p.steps == bootstrap_steps(cfg),
        !p.over() || p.failure is Some,
    ensures
        p.advance(reply).action() is Finished ==> p.advance(reply).token is Some,
{
    lemma_bootstrap(cfg);
    if !p.over() && p.at < p.steps.len() - 1 {
        let front = p.steps.drop_last();
        assert(front[p.at] == p.steps[p.at]);
        assert(p.at + 1 + skip_of(front[p.at]) <= front.len());
    }
}

/// Provision the full cluster: all control-plane nodes, worker nodes, then
/// Rancher. With `rancher_only`, nothing but Rancher is deployed.
pub fn provision_cluster(cfg: &NodeConfig, rancher_only: bool) -> (r: Result<
    Provisioner<'_>,
    NoServers,
>)
    requires
        cfg.nodes().len() <= usize::MAX,
    ensures
        match r {
            Ok(p) => cfg.cluster.server_nodes@.len() > 0 && p@ == ProvisionerView::start(
                *cfg,
                rancher_only,
            ) && p@.valid(),
            Err(_) => cfg.cluster.server_nodes@.len() == 0,
        },
{
    if cfg.cluster.server_nodes.len() == 0 {
        return Err(NoServers);
    }
    proof {
        lemma_bootstrap(*cfg);
        lemma_closing(*cfg, true);
    }
    let steps = if rancher_only {
        closing_plan(cfg, true)
    } else {
        bootstrap_plan(cfg)
    };
    Ok(Provisioner { cfg, joining: rancher_only, progress: Progress::new(steps) })
}

impl<'a> Provisioner<'a> {
    /// What is to be done next.
    pub fn action(&self) -> (r: Action<String>)
        requires
            self@.valid(),
        ensures
            r@ == self@.action(),
            r matches Action::Run { node, .. } ==> node < self@.cfg.nodes().len(),
    {
        proof {
            let p = self@.progress;
            if !p.over() && p.steps[p.at] is Connect {
                lemma_connection_is_listed(p.steps, p.at);
                let node = p.steps[p.at]->Connect_node;
                let all = connections(p.steps);
                let k = choose|k: int| 0 <= k < all.len() && all[k] == node;
                assert(all[k] < self@.cfg.nodes().len());
            }
        }
        self.progress.action()
    }

    /// The call that runs a command on the node with this number.
    pub fn call(&self, node: usize, command: &str) -> (r: SshCall)
        requires
            node < self@.cfg.nodes().len(),
        ensures
            r.runs(self@.cfg.nodes()[node as int], command@, Judge::AnyCode),
    {
        SshClient::run(self.node(node), command, Judge::AnyCode)
    }

    /// The node with this number.
    pub fn node(&self, node: usize) -> (r: &NodeInfo)
        requires
            node < self@.cfg.nodes().len(),
        ensures
            *r == self@.cfg.nodes()[node as int],
    {
        let servers = &self.cfg.cluster.server_nodes;
        if node < servers.len() {
            &servers[node]
        } else {
            &self.cfg.cluster.worker_nodes[node - servers.len()]
        }
    }

    /// Takes in what came of the action.
    pub fn advance(&mut self, reply: Reply<String>)
        requires
            old(self)@.valid(),
        ensures
            final(self)@ == old(self)@.advance(reply@),
            final(self)@.valid(),
    {
        let ghost before = self@.progress;
        let ghost n = self@.cfg.nodes().len();
        proof {
            lemma_progress_stays_on_nodes(before, reply@, n);
            if !self.joining {
                lemma_bootstrap_ends_with_token(*self.cfg, before, reply@);
            }
        }
        self.progress.advance(reply);
        if !self.joining {
            let finished = match self.progress.action() {
                Action::Finished => true,
                _ => false,
            };
            if finished {
                match self.progress.token() {
                    Some(token) => {
                        proof {
                            lemma_join(*self.cfg, token@);
                        }
                        let steps = join_plan(self.cfg, token.as_str());
                        self.progress = Progress::new(steps);
                        self.joining = true;
                    },
                    None => {
                        assert(false);
                    },
                }
            }
        }
    }
}

/// Each reply that fits the action brings the work nearer to its end: the plan
/// gets shorter, or the last plan takes the place of the first.
pub proof fn lemma_provisioning_ends(v: ProvisionerView, reply: Reply<Seq<char>>)
    requires
        v.valid(),
        !v.progress.over(),
        v.progress.fits(reply),
    ensures
        ({
            let w = v.advance(reply);
            ||| w.joining == v.joining && 0 <= w.progress.left() < v.progress.left()
            ||| w.joining && !v.joining
        }),
{
    lemma_every_reply_counts(v.progress, reply);
}

/// The work does not end well before the last plan has been carried out.
pub proof fn lemma_finished_means_joined(v: ProvisionerView)
    requires
        v.valid(),
        v.action() is Finished,
    ensures
        v.joining,
{
}

/// The token that the first server gives is the one that the other nodes join
/// with.
pub proof fn lemma_token_is_handed_on(
    v: ProvisionerView,
    output: CommandOutput<Seq<char>>,
    token: Seq<char>,
)
    requires
        v.valid(),
        !v.joining,
        !v.progress.over(),
        v.progress.at == v.progress.steps.len() - 1,
        v.progress.polling is Ask,
        output.code == 0,
        token_in(output.stdout) == Some(token),
    ensures
        v.advance(Reply::Output(output)) == (ProvisionerView {
            joining: true,
            progress: ProgressView::start(join_steps(v.cfg, token)),
            ..v
        }),
{
    let steps = v.progress.steps;
    assert(steps.last() is AwaitToken);
    assert(v.progress.advance(Reply::Output(output)).token == Some(token));
}

/// The place in the steps that make a node at which its configuration is
/// written, behind those that greet it.
spec fn config_place(hardening: HardeningConfig, node: NodeInfo, hostname: Seq<char>) -> int {
    (hardening_steps(hardening, node).len() + hostname_steps(node, hostname).len() + 10) as int
}

/// Every worker is configured with the address of the first server and with the
/// token that this server gave.
pub proof fn lemma_workers_join_first_server(cfg: NodeConfig, token: Seq<char>, i: int)
    requires
        is_cluster(cfg),
        0 <= i < cfg.cluster.worker_nodes@.len(),
    ensures
        joining_worker_steps(cfg, token, i).contains(
            Step::Upload {
                content: join_text(cfg.cluster.server_nodes@[0].host@, token) + "\n"@
                    + cfg.rke2.extra_args@,
                remote: "/tmp/rke2-config.yaml"@,
            },
        ),
{
    let node = cfg.cluster.worker_nodes@[i];
    let at = config_place(cfg.hardening, node, hostname_of(node, "worker"@));
    let steps = joining_worker_steps(cfg, token, i);
    assert(steps[at] is Upload);
    assert(steps.contains(steps[at]));
}

/// Every server but the first is configured with the address of the first server
/// and with the token that this server gave, and the first one with neither.
pub proof fn lemma_servers_join_first_server(cfg: NodeConfig, token: Seq<char>, i: int)
    requires
        is_cluster(cfg),
        1 <= i < cfg.cluster.server_nodes@.len(),
    ensures
        ({
            let join = join_text(cfg.cluster.server_nodes@[0].host@, token);
            let schedulable = cfg.cluster.use_servers_as_workers;
            let lines = server_config_lines(cfg.rke2, Some(join), schedulable);
            let first_lines = server_config_lines(cfg.rke2, None, schedulable);
            &&& lines.contains(join)
            &&& joining_server_steps(cfg, token, i).contains(
                Step::Upload {
                    content: joined(lines, "\n"@),
                    remote: "/tmp/rke2-config.yaml"@,
                },
            )
            &&& bootstrap_steps(cfg).contains(
                Step::Upload {
                    content: joined(first_lines, "\n"@),
                    remote: "/tmp/rke2-config.yaml"@,
                },
            )
        }),
{
    let join = join_text(cfg.cluster.server_nodes@[0].host@, token);
    let schedulable = cfg.cluster.use_servers_as_workers;
    let lines = server_config_lines(cfg.rke2, Some(join), schedulable);
    assert(lines[if schedulable {
        4
    } else {
        3
    }] == join);
    let node = cfg.cluster.server_nodes@[i];
    let at = config_place(cfg.hardening, node, hostname_of(node, "server"@));
    let steps = joining_server_steps(cfg, token, i);
    assert(steps[at] is Upload);
    assert(steps.contains(steps[at]));
    let first = cfg.cluster.server_nodes@[0];
    let first_at = config_place(cfg.hardening, first, hostname_of(first, "server"@)) + 1;
    let first_steps = bootstrap_steps(cfg);
    assert(first_steps[first_at] is Upload);
    assert(first_steps.contains(first_steps[first_at]));
}

/// A reply leaves the state of the work one that it can reach.
proof fn lemma_provisioner_stays_valid(v: ProvisionerView, reply: Reply<Seq<char>>)
    requires
        v.valid(),
    ensures
        v.advance(reply).valid(),
        v.advance(reply).cfg == v.cfg,
{
    let p = v.progress;
    if !p.over() && p.fits(reply) {
        lemma_every_reply_counts(p, reply);
    }
    lemma_progress_stays_on_nodes(p, reply, v.cfg.nodes().len());
    if !v.joining {
        lemma_bootstrap_ends_with_token(v.cfg, p, reply);
        if p.advance(reply).action() is Finished {
            lemma_join(v.cfg, p.advance(reply).token->0);
        }
    }
}

/// The state of the work after these replies.
pub open spec fn provisioned(v: ProvisionerView, replies: Seq<Reply<Seq<char>>>) -> ProvisionerView
    decreases replies.len(),
{
    if replies.len() == 0 {
        v
    } else {
        provisioned(v.advance(replies[0]), replies.drop_first())
    }
}

/// The nodes that the work has connected to after these replies, in order.
pub open spec fn connected(v: ProvisionerView, replies: Seq<Reply<Seq<char>>>) -> Seq<usize>
    decreases replies.len(),
{
    if replies.len() == 0 {
        Seq::empty()
    } else {
        connected_by(v.progress, replies[0]) + connected(
            v.advance(replies[0]),
            replies.drop_first(),
        )
    }
}

/// Whether the plan is one that provisioning the whole cluster comes to.
spec fn on_course(v: ProvisionerView) -> bool {
    v.joining ==> exists|token: Seq<char>| v.progress.steps == #[trigger] join_steps(v.cfg, token)
}

/// The connections of the steps that lie behind.
spec fn behind(v: ProvisionerView) -> Seq<usize> {
    let here = connections(v.progress.steps.take(v.progress.at));
    if v.joining {
        connections(bootstrap_steps(v.cfg)) + here
    } else {
        here
    }
}

proof fn lemma_behind_grows(v: ProvisionerView, reply: Reply<Seq<char>>)
    requires
        v.valid(),
        on_course(v),
    ensures
        on_course(v.advance(reply)),
        behind(v) + connected_by(v.progress, reply) == behind(v.advance(reply)),
{
    let p = v.progress;
    let q = p.advance(reply);
    let here = connections(p.steps.take(p.at));
    let made = connected_by(p, reply);
    lemma_connections_are_made(p, reply);
    let w = v.advance(reply);
    if v.joining {
        let first = connections(bootstrap_steps(v.cfg));
        assert(first + here + made =~= first + (here + made));
        let token = choose|token: Seq<char>| p.steps == #[trigger] join_steps(v.cfg, token);
        assert(w.progress.steps == join_steps(w.cfg, token));
    } else if q.action() is Finished {
        assert(q.steps.take(q.at) =~= bootstrap_steps(v.cfg));
        assert(w.progress.steps == join_steps(w.cfg, q.token->0));
        assert(w.progress.steps.take(0) =~= Seq::<Step<Seq<char>>>::empty());
        assert(behind(w) =~= connections(bootstrap_steps(v.cfg)));
    }
}

proof fn lemma_connected_is_behind(v: ProvisionerView, replies: Seq<Reply<Seq<char>>>)
    requires
        v.valid(),
        on_course(v),
    ensures
        provisioned(v, replies).valid(),
        provisioned(v, replies).cfg == v.cfg,
        on_course(provisioned(v, replies)),
        behind(v) + connected(v, replies) == behind(provisioned(v, replies)),
    decreases replies.len(),
{
    if replies.len() == 0 {
        assert(behind(v) + Seq::<usize>::empty() =~= behind(v));
    } else {
        let reply = replies[0];
        let w = v.advance(reply);
        let rest = replies.drop_first();
        lemma_provisioner_stays_valid(v, reply);
        lemma_behind_grows(v, reply);
        lemma_connected_is_behind(w, rest);
        assert(behind(v) + (connected_by(v.progress, reply) + connected(w, rest)) =~= (behind(v)
            + connected_by(v.progress, reply)) + connected(w, rest));
    }
}

/// The connections of all steps begin with those of the steps that lie behind.
proof fn lemma_behind_is_first(steps: Seq<Step<Seq<char>>>, at: int)
    requires
        0 <= at <= steps.len(),
    ensures
        connections(steps.take(at)).is_prefix_of(connections(steps)),
{
    assert(steps =~= steps.take(at) + steps.skip(at));
    lemma_connections_of_both(steps.take(at), steps.skip(at));
    let here = connections(steps.take(at));
    let ahead = connections(steps.skip(at));
    assert((here + ahead).take(here.len() as int) =~= here);
}

/// Whatever the commands give back, the nodes are connected to in the order in
/// which they are configured, servers before workers and none of them left out or
/// visited twice; last of all comes the first server again, where Rancher is
/// wanted. Work that ends well has connected to all of them.
pub proof fn lemma_run_connects_in_order(cfg: NodeConfig, replies: Seq<Reply<Seq<char>>>)
    requires
        is_cluster(cfg),
    ensures
        ({
            let all = Seq::new(cfg.nodes().len(), |i: int| i as usize) + rancher_connection(
                cfg,
                false,
            );
            let v = ProvisionerView::start(cfg, false);
            &&& connected(v, replies).is_prefix_of(all)
            &&& provisioned(v, replies).action() is Finished ==> connected(v, replies) == all
        }),
{
    let v = ProvisionerView::start(cfg, false);
    let w = provisioned(v, replies);
    let all = Seq::new(cfg.nodes().len(), |i: int| i as usize) + rancher_connection(cfg, false);
    lemma_bootstrap(cfg);
    assert(v.progress.steps.take(0) =~= Seq::<Step<Seq<char>>>::empty());
    lemma_connected_is_behind(v, replies);
    assert(behind(v) + connected(v, replies) =~= connected(v, replies));
    lemma_behind_is_first(w.progress.steps, w.progress.at);
    if w.joining {
        let token = choose|token: Seq<char>|
            w.progress.steps == #[trigger] join_steps(w.cfg, token);
        lemma_nodes_in_order(cfg, token);
        lemma_connections_of_both(bootstrap_steps(cfg), join_steps(cfg, token));
        let first = connections(bootstrap_steps(cfg));
        let here = connections(w.progress.steps.take(w.progress.at));
        let rest = connections(w.progress.steps);
        assert(all == first + rest);
        assert(all.take((first + here).len() as int) =~= first + here) by {
            assert(rest.take(here.len() as int) == here);
        }
        if w.action() is Finished {
            assert(w.progress.steps.take(w.progress.at) =~= w.progress.steps);
        }
    } else {
        let here = connections(w.progress.steps.take(w.progress.at));
        assert(connections(w.progress.steps) == seq![0usize]);
        assert(all[0] == 0usize);
        assert(all.take(here.len() as int) =~= here);
    }
}

proof fn lemma_connected_in_last_plan(v: ProvisionerView, replies: Seq<Reply<Seq<char>>>)
    requires
        v.valid(),
        v.joining,
    ensures
        ({
            let w = provisioned(v, replies);
            &&& w.valid()
            &&& w.progress.steps == v.progress.steps
            &&& connections(v.progress.steps.take(v.progress.at)) + connected(v, replies)
                == connections(w.progress.steps.take(w.progress.at))
        }),
    decreases replies.len(),
{
    let here = connections(v.progress.steps.take(v.progress.at));
    if replies.len() == 0 {
        assert(here + Seq::<usize>::empty() =~= here);
    } else {
        let reply = replies[0];
        let w = v.advance(reply);
        let rest = replies.drop_first();
        lemma_provisioner_stays_valid(v, reply);
        lemma_connections_are_made(v.progress, reply);
        lemma_connected_in_last_plan(w, rest);
        let made = connected_by(v.progress, reply);
        assert(here + (made + connected(w, rest)) =~= (here + made) + connected(w, rest));
    }
}

/// Whatever the commands give back, work on Rancher alone connects to no other
/// node than the first server, and once at most; if it ends well, it has.
pub proof fn lemma_rancher_run_connects_to_first(cfg: NodeConfig, replies: Seq<Reply<Seq<char>>>)
    requires
        is_cluster(cfg),
    ensures
        ({
            let v = ProvisionerView::start(cfg, true);
            &&& connected(v, replies).is_prefix_of(seq![0usize])
            &&& provisioned(v, replies).action() is Finished ==> connected(v, replies)
                == seq![0usize]
        }),
{
    let v = ProvisionerView::start(cfg, true);
    let w = provisioned(v, replies);
    lemma_closing(cfg, true);
    assert(v.progress.steps.take(0) =~= Seq::<Step<Seq<char>>>::empty());
    lemma_connected_in_last_plan(v, replies);
    let all = connected(v, replies);
    assert(Seq::<usize>::empty() + all =~= all);
    lemma_behind_is_first(w.progress.steps, w.progress.at);
    if w.action() is Finished {
        assert(w.progress.steps.take(w.progress.at) =~= w.progress.steps);
    }
}

/// The state of the work after `n` replies, where `reply` says what comes back in
/// each state.
pub open spec fn provisioned_by(
    v: ProvisionerView,
    reply: spec_fn(ProvisionerView) -> Reply<Seq<char>>,
    n: nat,
) -> ProvisionerView
    decreases n,
{
    if n == 0 {
        v
    } else {
        provisioned_by(v.advance(reply(v)), reply, (n - 1) as nat)
    }
}

proof fn lemma_good_run_from(
    v: ProvisionerView,
    reply: spec_fn(ProvisionerView) -> Reply<Seq<char>>,
)
    requires
        v.valid(),
        is_well(v.progress),
        forall|w: ProvisionerView| !w.progress.over() ==> is_good(w.progress, #[trigger] reply(w)),
    ensures
        exists|n: nat| (#[trigger] provisioned_by(v, reply, n)).action() is Finished,
    decreases
            if v.joining {
                0int
            } else {
                1int
            },
            v.progress.left(),
{
    if v.progress.over() {
        assert(provisioned_by(v, reply, 0) == v);
        assert(provisioned_by(v, reply, 0).action() is Finished);
    } else {
        let r = reply(v);
        let w = v.advance(r);
        lemma_provisioning_ends(v, r);
        lemma_provisioner_stays_valid(v, r);
        lemma_good_reply_keeps_well(v.progress, r);
        lemma_good_run_from(w, reply);
        let n = choose|n: nat| (#[trigger] provisioned_by(w, reply, n)).action() is Finished;
        assert(provisioned_by(v, reply, n + 1) == provisioned_by(w, reply, n));
    }
}

/// Work on which every command succeeds, and in which the token that is read is
/// not blank, ends well: in the end the cluster is provisioned, or Rancher is
/// deployed where only that is wanted.
pub proof fn lemma_good_run_finishes(
    cfg: NodeConfig,
    rancher_only: bool,
    reply: spec_fn(ProvisionerView) -> Reply<Seq<char>>,
)
    requires
        is_cluster(cfg),
        forall|w: ProvisionerView| !w.progress.over() ==> is_good(w.progress, #[trigger] reply(w)),
    ensures
        exists|n: nat|
            (#[trigger] provisioned_by(
                ProvisionerView::start(cfg, rancher_only),
                reply,
                n,
            )).action() is Finished,
{
    lemma_bootstrap(cfg);
    lemma_closing(cfg, true);
    lemma_good_run_from(ProvisionerView::start(cfg, rancher_only), reply);
}

/// What is said before the work begins.
pub fn provision_title(cfg: &NodeConfig, rancher_only: bool) -> (r: String)
    ensures
        r@ == if rancher_only {
            ">>> Deploying Rancher dashboard only..."@
        } else {
            ">>> Provisioning cluster '"@ + cfg.cluster.name@ + "'..."@
        },
{
    if rancher_only {
        ">>> Deploying Rancher dashboard only...".to_string()
    } else {
        concat3(">>> Provisioning cluster '", cfg.cluster.name.as_str(), "'...")
    }
}

} // verus!
