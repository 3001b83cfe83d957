use pifrost::config::NodeConfig;
use pifrost::init::{
    Answer, Question, Questionnaire, Stage, AUTH_KEY, AUTH_PASSWORD, TOO_FEW_SERVERS,
};

fn text(s: &str) -> Answer<String> {
    Answer::Text(s.to_string())
}

fn give(q: &mut Questionnaire, answers: Vec<Answer<String>>) {
    for a in answers {
        let shown = format!("{:?} to {:?}", a, q.stage);
        assert!(q.answer(a), "{}", shown);
    }
}

fn small() -> NodeConfig {
    let mut q = Questionnaire::new();
    give(
        &mut q,
        vec![
            text("home"),
            Answer::Count(2),
            text("pi"),
            Answer::Auth(0),
            text("/k"),
            text("10.0.0.1"),
            Answer::Port(22),
            text("pi"),
            Answer::Auth(0),
            text("/k1"),
            text("ctrl"),
            text("10.0.0.2"),
            Answer::Port(2222),
            text("root"),
            Answer::Auth(1),
            text("pw"),
            text(""),
            Answer::Confirm(false),
            Answer::Count(1),
            text("10.0.0.3"),
            Answer::Port(22),
            text("pi"),
            Answer::Auth(0),
            text("/k"),
            text("w"),
            text("v1.0"),
            Answer::Confirm(true),
            text("r.local"),
        ],
    );
    assert_eq!(q.stage, Stage::Done);
    q.finish()
}

#[test]
fn answers_make_a_configuration() {
    let cfg = small();
    assert_eq!(cfg.cluster.name, "home");
    assert!(!cfg.cluster.use_servers_as_workers);
    assert_eq!(cfg.cluster.server_nodes.len(), 2);
    assert_eq!(cfg.cluster.worker_nodes.len(), 1);
    let a = &cfg.cluster.server_nodes[0];
    assert_eq!((a.host.as_str(), a.port, a.user.as_str()), ("10.0.0.1", 22, "pi"));
    assert_eq!((a.auth.as_str(), a.key_path.as_str(), a.password.as_str()), ("key", "/k1", ""));
    assert_eq!(a.hostname, "ctrl");
    let b = &cfg.cluster.server_nodes[1];
    assert_eq!((b.host.as_str(), b.port, b.user.as_str()), ("10.0.0.2", 2222, "root"));
    assert_eq!(
        (b.auth.as_str(), b.key_path.as_str(), b.password.as_str()),
        ("password", "", "pw")
    );
    assert_eq!(b.hostname, "");
    assert_eq!(cfg.cluster.worker_nodes[0].hostname, "w");
    assert_eq!(cfg.cluster.worker_nodes[0].password, "");
    assert_eq!(cfg.rke2.version, "v1.0");
    assert_eq!(cfg.rke2.extra_args, "");
    assert!(cfg.hardening.zero_logs && cfg.hardening.no_fs_bloat && cfg.hardening.disable_swap);
    assert!(cfg.rancher.deploy);
    assert_eq!(cfg.rancher.hostname, "r.local");
}

#[test]
fn without_workers_and_rancher() {
    let mut q = Questionnaire::new();
    give(
        &mut q,
        vec![
            text("c"),
            Answer::Count(1),
            text("root"),
            Answer::Auth(1),
            text("pw"),
            text("h"),
            Answer::Port(22),
            text("root"),
            Answer::Auth(1),
            text("pw"),
            text(""),
            Answer::Confirm(true),
            Answer::Count(0),
            text("v"),
            Answer::Confirm(false),
        ],
    );
    assert_eq!(q.stage, Stage::Done);
    assert!(matches!(q.question("/k"), Question::Nothing));
    assert!(!q.answer(text("more")));
    let cfg = q.finish();
    assert!(cfg.cluster.use_servers_as_workers);
    assert!(cfg.cluster.worker_nodes.is_empty());
    assert!(!cfg.rancher.deploy);
    assert_eq!(cfg.rancher.hostname, "");
}

#[test]
fn a_cluster_is_asked_for_a_server() {
    let mut q = Questionnaire::new();
    assert!(q.answer(text("c")));
    assert!(!q.answer(Answer::Count(0)));
    assert_eq!(q.stage, Stage::Servers);
    assert!(q.answer(Answer::Count(1)));
    assert_eq!(TOO_FEW_SERVERS, "At least 1 server required");
}

#[test]
fn answers_must_fit_the_question() {
    let mut q = Questionnaire::new();
    assert!(!q.answer(Answer::Count(1)));
    assert!(!q.answer(Answer::Port(22)));
    assert!(!q.answer(Answer::Confirm(true)));
    assert!(!q.answer(Answer::Auth(0)));
    assert_eq!(q.stage, Stage::Name);
    give(&mut q, vec![text("c"), Answer::Count(1), text("u")]);
    assert!(!q.answer(Answer::Auth(2)));
    assert!(!q.answer(text("x")));
    assert_eq!(q.stage, Stage::Auth);
}

#[test]
fn questions_offer_defaults() {
    let mut q = Questionnaire::new();
    let mut asked = Vec::new();
    let answers = vec![
        text("c"),
        Answer::Count(1),
        text("pi"),
        Answer::Auth(1),
        text("pw"),
        text("h"),
        Answer::Port(22),
        text("u"),
        Answer::Auth(0),
        text("/own"),
        text("n"),
        Answer::Confirm(true),
        Answer::Count(0),
        text("v"),
        Answer::Confirm(true),
        text("r"),
    ];
    for a in answers {
        asked.push(format!("{:?}", q.question("/home/pi/.ssh/id_rsa")));
        assert!(q.answer(a));
    }
    assert_eq!(
        asked,
        vec![
            "Text { prompt: \"Cluster name\", default: Some(\"pifrost-cluster\") }",
            "Count { prompt: \"Number of control-plane (server) nodes\", default_count: 1, least: 1 }",
            "Text { prompt: \"Default SSH user for all nodes\", default: Some(\"root\") }",
            "Auth { prompt: \"Default SSH authentication method\", default_choice: 0 }",
            "Text { prompt: \"Default SSH password\", default: None }",
            "Text { prompt: \"IP address or hostname\", default: None }",
            "Port { prompt: \"SSH port\", default_port: 22 }",
            "Text { prompt: \"SSH user\", default: Some(\"pi\") }",
            "Auth { prompt: \"Auth method for this node\", default_choice: 1 }",
            "Text { prompt: \"SSH key path\", default: Some(\"\") }",
            "Text { prompt: \"Node hostname (leave empty to auto-generate)\", default: Some(\"\") }",
            "Confirm { prompt: \"Also use control-plane nodes as workers (schedulable)?\", default_answer: true }",
            "Count { prompt: \"Number of dedicated worker nodes\", default_count: 0, least: 0 }",
            "Text { prompt: \"RKE2 version\", default: Some(\"v1.32.3+rke2r1\") }",
            "Confirm { prompt: \"Deploy Rancher management UI?\", default_answer: true }",
            "Text { prompt: \"Rancher UI hostname (or IP)\", default: Some(\"rancher.pifrost.local\") }",
        ]
    );
    assert_eq!((AUTH_KEY, AUTH_PASSWORD), ("SSH key", "Password"));
}

#[test]
fn keys_and_passwords_are_offered_again() {
    let mut q = Questionnaire::new();
    give(&mut q, vec![text("c"), Answer::Count(1), text("pi"), Answer::Auth(0)]);
    assert_eq!(
        format!("{:?}", q.question("/own")),
        "Text { prompt: \"Default SSH key path\", default: Some(\"/own\") }"
    );
    give(&mut q, vec![text("/k"), text("h"), Answer::Port(22), text("pi"), Answer::Auth(0)]);
    assert_eq!(
        format!("{:?}", q.question("/own")),
        "Text { prompt: \"SSH key path\", default: Some(\"/k\") }"
    );
    let mut p = Questionnaire::new();
    give(
        &mut p,
        vec![
            text("c"),
            Answer::Count(1),
            text("pi"),
            Answer::Auth(1),
            text("pw"),
            text("h"),
            Answer::Port(22),
            text("pi"),
            Answer::Auth(1),
        ],
    );
    assert_eq!(
        format!("{:?}", p.question("/own")),
        "Text { prompt: \"SSH password\", default: Some(\"pw\") }"
    );
}

#[test]
fn nodes_have_headings() {
    let mut q = Questionnaire::new();
    assert_eq!(q.heading(), None);
    give(
        &mut q,
        vec![text("c"), Answer::Count(2), text("u"), Answer::Auth(0), text("/k")],
    );
    assert_eq!(q.heading().as_deref(), Some("--- Control-plane node #1 ---"));
    let node = || {
        vec![text("h"), Answer::Port(22), text("u"), Answer::Auth(0), text("/k"), text("")]
    };
    give(&mut q, node());
    assert_eq!(q.heading().as_deref(), Some("--- Control-plane node #2 ---"));
    give(&mut q, node());
    give(&mut q, vec![Answer::Confirm(true), Answer::Count(1)]);
    assert_eq!(q.heading().as_deref(), Some("--- Worker node #1 ---"));
    give(&mut q, vec![text("h")]);
    assert_eq!(q.heading(), None);
}
