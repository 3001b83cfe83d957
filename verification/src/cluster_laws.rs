//! What the plans for a cluster do: what is done on which node, and in which order.

use vstd::prelude::*;
use crate::cluster::{
    bootstrap_steps, closing_steps, connect_step, join_steps, joining_server_steps,
    joining_worker_steps, servers_steps, workers_steps,
};
use crate::config::{NodeConfig, NodeInfo};
use crate::course::{
    answered, at, begins, commands, does, end, ends_well, is_direct, lemma_does_both,
    lemma_does_nothing, lemma_next, lemma_no_more, lemma_quiet, succeeds, Answers,
};
use crate::plan::{token_in, Action, Polling, ProgressView, Reply, Step};
use crate::provision::{rancher_steps, server_steps, worker_steps};
use crate::ssh::CommandOutput;

verus! {

/// A command is run on the node that was connected to last: connecting asks the node
/// that it names, and if that succeeds, this is the node from then on; every other
/// command goes to the node of the state, and no other reply changes it.
pub proof fn lemma_commands_follow_connection(p: ProgressView, reply: Reply<Seq<char>>)
    requires
        !p.over(),
    ensures
        p.steps[p.at] matches Step::Connect { node, .. } ==> {
            &&& p.action() == Action::Run { node, command: "echo connected"@ }
            &&& reply matches Reply::Output(output) ==> (output.code == 0 ==> p.advance(reply).node
                == node)
            &&& p.advance(reply).failure is None && reply !is Done ==> p.advance(reply).node == node
        },
        !(p.steps[p.at] is Connect) ==> {
            &&& p.action() matches Action::Run { node, .. } ==> node == p.node
            &&& p.advance(reply).node == p.node
        },
{
}

/// A token is asked for at most thirty times, and two seconds pass before each time. An
/// answer counts only if the command succeeded and printed a token; then it is kept,
/// and the plan goes on. After the first answer that does not count it is said that the
/// token is waited for, and after the thirtieth the plan fails.
pub proof fn lemma_token_is_waited_for(
    p: ProgressView,
    command: Seq<char>,
    output: CommandOutput<Seq<char>>,
)
    requires
        p.valid(),
        !p.over(),
        p.steps[p.at] == Step::<Seq<char>>::AwaitToken(command),
    ensures
        p.polling == Polling::Pause ==> {
            &&& p.action() == Action::<Seq<char>>::Sleep(2)
            &&& p.advance(Reply::Done) == ProgressView { polling: Polling::Ask, ..p }
        },
        p.polling == Polling::Notice ==> {
            &&& p.action() == Action::<Seq<char>>::Say(
                "    waiting for RKE2 to generate node-token..."@,
            )
            &&& p.advance(Reply::Done) == ProgressView { polling: Polling::Pause, ..p }
        },
        p.polling == Polling::Ask ==> {
            let next = p.advance(Reply::Output(output));
            let counts = output.code == 0 && token_in(output.stdout) is Some;
            &&& p.action() == Action::Run { node: p.node, command }
            &&& counts ==> {
                &&& next.at == p.at + 1
                &&& next.token == token_in(output.stdout)
                &&& next.failure == p.failure
            }
            &&& !counts ==> {
                &&& next.at == p.at
                &&& next.token == p.token
                &&& next.failure is Some <==> p.attempt == 29
                &&& p.attempt < 29 ==> next.attempt == p.attempt + 1
                &&& p.attempt < 29 ==> next.polling == (if p.attempt == 0 {
                    Polling::Notice
                } else {
                    Polling::Pause
                })
            }
        },
{
}

/// Connecting to a node runs one command there.
proof fn lemma_connecting_does(number: usize, node: NodeInfo, answers: Answers)
    requires
        succeeds(answers, "echo connected"@),
    ensures
        does(seq![connect_step(number, node)], answers, seq!["echo connected"@]),
{
    let plan = seq![connect_step(number, node)];
    assert(is_direct(plan));
    assert forall|p: ProgressView| #[trigger] begins(p, plan) && !p.unhealthy implies {
        &&& commands(p, answers) == seq!["echo connected"@]
        &&& ends_well(p, answers)
        &&& !end(p, answers).unhealthy
    } by {
        lemma_next(p, answers);
        lemma_no_more(answered(p, answers), answers);
    }
}

/// What is only said runs nothing.
proof fn lemma_saying_does(step: Step<Seq<char>>, answers: Answers)
    requires
        step is Say || step is Announce || step is Sleep,
    ensures
        does(seq![step], answers, Seq::empty()),
{
    let plan = seq![step];
    assert(is_direct(plan));
    assert forall|p: ProgressView| #[trigger] begins(p, plan) && !p.unhealthy implies {
        &&& commands(p, answers) == Seq::<Seq<char>>::empty()
        &&& ends_well(p, answers)
        &&& !end(p, answers).unhealthy
    } by {
        assert(p == at(p, 0));
        lemma_quiet(p, 0, answers);
        lemma_no_more(at(p, 1), answers);
    }
}

/// A node is announced, connected to and then made what it is to be.
proof fn lemma_arrival_does(
    title: Seq<char>,
    number: usize,
    node: NodeInfo,
    plan: Seq<Step<Seq<char>>>,
    answers: Answers,
    made: Seq<Seq<char>>,
)
    requires
        succeeds(answers, "echo connected"@),
        does(plan, answers, made),
    ensures
        does(
            seq![Step::Say(title), connect_step(number, node)] + plan,
            answers,
            seq!["echo connected"@] + made,
        ),
{
    let none = Seq::<Seq<char>>::empty();
    let one = seq![Step::<Seq<char>>::Say(title)];
    let two = seq![connect_step(number, node)];
    lemma_saying_does(Step::Say(title), answers);
    lemma_connecting_does(number, node, answers);
    lemma_does_both(one, two, answers, none, seq!["echo connected"@]);
    assert(none + seq!["echo connected"@] =~= seq!["echo connected"@]);
    lemma_does_both(one + two, plan, answers, seq!["echo connected"@], made);
    assert(one + two =~= seq![Step::Say(title), connect_step(number, node)]);
}

/// The first server joins nothing: it is connected to and made a server by its own
/// settings. Then, when it has had time to start, it is asked for its token, as the
/// administrator.
pub proof fn lemma_first_server_gives_token(
    cfg: NodeConfig,
    answers: Answers,
    made: Seq<Seq<char>>,
)
    requires
        cfg.cluster.server_nodes@.len() > 0,
        succeeds(answers, "echo connected"@),
        does(
            server_steps(
                cfg.hardening,
                cfg.rke2,
                None,
                cfg.cluster.server_nodes@[0],
                cfg.cluster.use_servers_as_workers,
            ),
            answers,
            made,
        ),
    ensures
        ({
            let plan = bootstrap_steps(cfg);
            &&& does(plan.drop_last(), answers, seq!["echo connected"@] + made)
            &&& plan.last() == Step::<Seq<char>>::AwaitToken(
                "echo '"@ + cfg.cluster.server_nodes@[0].password@
                    + "' | sudo -S cat /var/lib/rancher/rke2/server/node-token 2>/dev/null"@,
            )
            &&& plan[plan.len() - 2] == Step::<Seq<char>>::Sleep(15)
        }),
{
    let none = Seq::<Seq<char>>::empty();
    let first = cfg.cluster.server_nodes@[0];
    let plan = bootstrap_steps(cfg);
    let served = server_steps(
        cfg.hardening,
        cfg.rke2,
        None,
        first,
        cfg.cluster.use_servers_as_workers,
    );
    let n = served.len() as int;
    let hello = plan[0];
    let title = plan[1]->Say_0;
    let wait = plan[n + 3];
    let a = seq![hello];
    let b = seq![Step::Say(title), connect_step(0, first)] + served;
    lemma_saying_does(hello, answers);
    lemma_arrival_does(title, 0, first, served, answers, made);
    let list = seq!["echo connected"@] + made;
    lemma_does_both(a, b, answers, none, list);
    assert(none + list =~= list);
    lemma_saying_does(wait, answers);
    lemma_saying_does(Step::Sleep(15), answers);
    lemma_does_both(a + b, seq![wait], answers, list, none);
    assert(list + none =~= list);
    lemma_does_both(a + b + seq![wait], seq![Step::Sleep(15)], answers, list, none);
    assert(plan.drop_last() =~= a + b + seq![wait] + seq![Step::Sleep(15)]);
    let password = first.password@;
    assert("echo '"@ + password + "' | sudo -S "@
        + "cat /var/lib/rancher/rke2/server/node-token 2>/dev/null"@ =~= "echo '"@ + password
        + "' | sudo -S cat /var/lib/rancher/rke2/server/node-token 2>/dev/null"@) by {
        reveal_strlit("' | sudo -S ");
        reveal_strlit("cat /var/lib/rancher/rke2/server/node-token 2>/dev/null");
        reveal_strlit("' | sudo -S cat /var/lib/rancher/rke2/server/node-token 2>/dev/null");
    }
}

/// Every other server is connected to and made a server by its own settings, which
/// joins the first one, at its address, with the token.
pub proof fn lemma_server_joins(
    cfg: NodeConfig,
    token: Seq<char>,
    i: int,
    answers: Answers,
    made: Seq<Seq<char>>,
)
    requires
        0 < i < cfg.cluster.server_nodes@.len(),
        succeeds(answers, "echo connected"@),
        does(
            server_steps(
                cfg.hardening,
                cfg.rke2,
                Some(
                    "server: https://"@ + cfg.cluster.server_nodes@[0].host@ + ":9345\ntoken: "@
                        + token,
                ),
                cfg.cluster.server_nodes@[i],
                cfg.cluster.use_servers_as_workers,
            ),
            answers,
            made,
        ),
    ensures
        does(joining_server_steps(cfg, token, i), answers, seq!["echo connected"@] + made),
        joining_server_steps(cfg, token, i)[1] == (Step::Connect {
            node: i as usize,
            user: cfg.cluster.server_nodes@[i].user@,
            host: cfg.cluster.server_nodes@[i].host@,
        }),
{
    let servers = cfg.cluster.server_nodes@;
    let plan = joining_server_steps(cfg, token, i);
    let served = server_steps(
        cfg.hardening,
        cfg.rke2,
        Some("server: https://"@ + servers[0].host@ + ":9345\ntoken: "@ + token),
        servers[i],
        cfg.cluster.use_servers_as_workers,
    );
    let title = plan[0]->Say_0;
    lemma_arrival_does(title, i as usize, servers[i], served, answers, made);
    assert(plan =~= seq![Step::Say(title), connect_step(i as usize, servers[i])] + served);
}

/// Every worker is connected to and made a worker by its own settings, which joins
/// the first server, at its address, with the token. Workers are counted on from the
/// servers.
pub proof fn lemma_worker_joins(
    cfg: NodeConfig,
    token: Seq<char>,
    i: int,
    answers: Answers,
    made: Seq<Seq<char>>,
)
    requires
        0 <= i < cfg.cluster.worker_nodes@.len(),
        cfg.cluster.server_nodes@.len() > 0,
        succeeds(answers, "echo connected"@),
        does(
            worker_steps(
                cfg.hardening,
                cfg.rke2,
                "server: https://"@ + cfg.cluster.server_nodes@[0].host@ + ":9345\ntoken: "@
                    + token,
                cfg.cluster.worker_nodes@[i],
            ),
            answers,
            made,
        ),
    ensures
        does(joining_worker_steps(cfg, token, i), answers, seq!["echo connected"@] + made),
        joining_worker_steps(cfg, token, i)[1] == (Step::Connect {
            node: (cfg.cluster.server_nodes@.len() + i) as usize,
            user: cfg.cluster.worker_nodes@[i].user@,
            host: cfg.cluster.worker_nodes@[i].host@,
        }),
{
    let servers = cfg.cluster.server_nodes@;
    let workers = cfg.cluster.worker_nodes@;
    let plan = joining_worker_steps(cfg, token, i);
    let worked = worker_steps(
        cfg.hardening,
        cfg.rke2,
        "server: https://"@ + servers[0].host@ + ":9345\ntoken: "@ + token,
        workers[i],
    );
    let title = plan[0]->Say_0;
    let number = (servers.len() + i) as usize;
    lemma_arrival_does(title, number, workers[i], worked, answers, made);
    assert(plan =~= seq![Step::Say(title), connect_step(number, workers[i])] + worked);
}

/// At the end Rancher is deployed on the first server, where it is configured or where
/// it alone is wanted, and otherwise nothing is run any more.
pub proof fn lemma_rancher_is_deployed_last(
    cfg: NodeConfig,
    rancher_only: bool,
    answers: Answers,
    made: Seq<Seq<char>>,
)
    requires
        cfg.cluster.server_nodes@.len() > 0,
        succeeds(answers, "echo connected"@),
        does(rancher_steps(cfg.rancher, cfg.cluster.server_nodes@[0]), answers, made),
    ensures
        does(
            closing_steps(cfg, rancher_only),
            answers,
            if cfg.rancher.deploy || rancher_only {
                seq!["echo connected"@] + made
            } else {
                Seq::empty()
            },
        ),
{
    let none = Seq::<Seq<char>>::empty();
    let first = cfg.cluster.server_nodes@[0];
    let wanted = cfg.rancher.deploy || rancher_only;
    let title = "\n--- Deploying Rancher dashboard ---"@;
    let deployed = seq![Step::Say(title), connect_step(0, first)] + rancher_steps(
        cfg.rancher,
        first,
    );
    let a = if wanted {
        deployed
    } else {
        Seq::empty()
    };
    let list = if wanted {
        seq!["echo connected"@] + made
    } else {
        none
    };
    lemma_does_nothing(answers);
    lemma_arrival_does(title, 0, first, rancher_steps(cfg.rancher, first), answers, made);
    let plan = closing_steps(cfg, rancher_only);
    let k = a.len() as int;
    assert(list + none =~= list);
    if rancher_only {
        lemma_saying_does(plan[k], answers);
        lemma_saying_does(plan[k + 1], answers);
        lemma_does_both(a, seq![plan[k]], answers, list, none);
        lemma_does_both(a + seq![plan[k]], seq![plan[k + 1]], answers, list, none);
        assert(plan =~= a + seq![plan[k]] + seq![plan[k + 1]]);
    } else {
        let b = a + seq![plan[k]];
        let c = b + seq![plan[k + 1]];
        let d = c + seq![plan[k + 2]];
        lemma_saying_does(plan[k], answers);
        lemma_saying_does(plan[k + 1], answers);
        lemma_saying_does(plan[k + 2], answers);
        lemma_does_both(a, seq![plan[k]], answers, list, none);
        lemma_does_both(b, seq![plan[k + 1]], answers, list, none);
        lemma_does_both(c, seq![plan[k + 2]], answers, list, none);
        if wanted {
            lemma_saying_does(plan[k + 3], answers);
            lemma_does_both(d, seq![plan[k + 3]], answers, list, none);
            assert(plan =~= d + seq![plan[k + 3]]);
        } else {
            assert(plan =~= d);
        }
    }
}

/// The lists from the first up to the `n`th, one behind another.
pub open spec fn lists(parts: Seq<Seq<Seq<char>>>, n: int) -> Seq<Seq<char>>
    decreases n,
{
    if n <= 0 {
        Seq::empty()
    } else {
        lists(parts, n - 1) + parts[n - 1]
    }
}

/// Once the token is known, the other servers join one after another, then all the
/// workers, and then the work is brought to its end.
pub proof fn lemma_joining_does(
    cfg: NodeConfig,
    token: Seq<char>,
    answers: Answers,
    servers: Seq<Seq<Seq<char>>>,
    workers: Seq<Seq<Seq<char>>>,
    last: Seq<Seq<char>>,
)
    requires
        cfg.cluster.server_nodes@.len() > 0,
        servers.len() == cfg.cluster.server_nodes@.len() - 1,
        workers.len() == cfg.cluster.worker_nodes@.len(),
        forall|i: int|
            0 <= i < servers.len() ==> does(
                joining_server_steps(cfg, token, i + 1),
                answers,
                #[trigger] servers[i],
            ),
        forall|i: int|
            0 <= i < workers.len() ==> does(
                joining_worker_steps(cfg, token, i),
                answers,
                #[trigger] workers[i],
            ),
        does(closing_steps(cfg, false), answers, last),
    ensures
        does(
            join_steps(cfg, token),
            answers,
            lists(servers, servers.len() as int) + lists(workers, workers.len() as int) + last,
        ),
{
    let none = Seq::<Seq<char>>::empty();
    let n = servers.len() as int;
    let m = workers.len() as int;
    lemma_servers_do(cfg, token, answers, servers, n);
    lemma_workers_do(cfg, token, answers, workers, m);
    let said = seq![Step::<Seq<char>>::Say("    join token obtained"@)];
    let a = servers_steps(cfg, token, n + 1);
    let b = workers_steps(cfg, token, m);
    lemma_saying_does(Step::Say("    join token obtained"@), answers);
    lemma_does_both(said, a, answers, none, lists(servers, n));
    assert(none + lists(servers, n) =~= lists(servers, n));
    lemma_does_both(said + a, b, answers, lists(servers, n), lists(workers, m));
    lemma_does_both(
        said + a + b,
        closing_steps(cfg, false),
        answers,
        lists(servers, n) + lists(workers, m),
        last,
    );
}

proof fn lemma_servers_do(
    cfg: NodeConfig,
    token: Seq<char>,
    answers: Answers,
    servers: Seq<Seq<Seq<char>>>,
    n: int,
)
    requires
        0 <= n <= servers.len(),
        forall|i: int|
            0 <= i < servers.len() ==> does(
                joining_server_steps(cfg, token, i + 1),
                answers,
                #[trigger] servers[i],
            ),
    ensures
        does(servers_steps(cfg, token, n + 1), answers, lists(servers, n)),
    decreases n,
{
    if n == 0 {
        lemma_does_nothing(answers);
    } else {
        lemma_servers_do(cfg, token, answers, servers, n - 1);
        assert(does(joining_server_steps(cfg, token, n), answers, servers[n - 1]));
        lemma_does_both(
            servers_steps(cfg, token, n),
            joining_server_steps(cfg, token, n),
            answers,
            lists(servers, n - 1),
            servers[n - 1],
        );
    }
}

proof fn lemma_workers_do(
    cfg: NodeConfig,
    token: Seq<char>,
    answers: Answers,
    workers: Seq<Seq<Seq<char>>>,
    n: int,
)
    requires
        0 <= n <= workers.len(),
        forall|i: int|
            0 <= i < workers.len() ==> does(
                joining_worker_steps(cfg, token, i),
                answers,
                #[trigger] workers[i],
            ),
    ensures
        does(workers_steps(cfg, token, n), answers, lists(workers, n)),
    decreases n,
{
    if n == 0 {
        lemma_does_nothing(answers);
    } else {
        lemma_workers_do(cfg, token, answers, workers, n - 1);
        lemma_does_both(
            workers_steps(cfg, token, n - 1),
            joining_worker_steps(cfg, token, n - 1),
            answers,
            lists(workers, n - 1),
            workers[n - 1],
        );
    }
}

/// The report at the end says how the first server is reached and where its access
/// file lies, and where Rancher was deployed, its address comes last.
pub proof fn lemma_report_closes(cfg: NodeConfig)
    requires
        cfg.cluster.server_nodes@.len() > 0,
    ensures
        ({
            let first = cfg.cluster.server_nodes@[0];
            let report = seq![
                Step::<Seq<char>>::Announce("✓ Cluster provisioning complete!"@),
                Step::Say("  First server:  ssh "@ + first.user@ + "@"@ + first.host@),
                Step::Say("  RKE2 config:   /etc/rancher/rke2/rke2.yaml"@),
            ] + (if cfg.rancher.deploy {
                seq![
                    Step::Say(
                        "  Rancher UI:    https://"@ + cfg.rancher.hostname@
                            + " (user: admin / password: admin)"@,
                    ),
                ]
            } else {
                Seq::empty()
            });
            let plan = closing_steps(cfg, false);
            plan.len() >= report.len() && plan.skip(plan.len() - report.len()) == report
        }),
{
    let plan = closing_steps(cfg, false);
    let n: int = if cfg.rancher.deploy {
        4
    } else {
        3
    };
    assert(plan.len() >= n);
}

} // verus!
