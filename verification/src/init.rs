//! The questions that lead to the configuration of a cluster.

use vstd::prelude::*;
use crate::config::{
    default_cluster_name, default_port, default_rancher_hostname, default_rke2_version,
    default_ssh_user, node_texts, ClusterConfig, HardeningConfig, NodeConfig, NodeInfo, NodeView,
    RancherConfig, Rke2Config,
};
use crate::text::{concat3, decimal, decimal_of};

verus! {

/// A question. Its texts are `S`.
#[derive(Debug)]
pub enum Question<S> {
    /// A text; an empty answer stands for the default, where there is one.
    Text { prompt: &'static str, default: Option<S> },
    /// A number of nodes, which must reach a minimum.
    Count { prompt: &'static str, default_count: usize, least: usize },
    /// A port.
    Port { prompt: &'static str, default_port: u16 },
    /// Whether to log in with a key or with a password; the key is offered first.
    Auth { prompt: &'static str, default_choice: usize },
    /// Yes or no.
    Confirm { prompt: &'static str, default_answer: bool },
    /// Nothing is left to ask.
    Nothing,
}

impl View for Question<String> {
    type V = Question<Seq<char>>;

    open spec fn view(&self) -> Question<Seq<char>> {
        match *self {
            Question::Text { prompt, default } => Question::Text {
                prompt,
                default: match default {
                    Some(d) => Some(d@),
                    None => None,
                },
            },
            Question::Count { prompt, default_count, least } => Question::Count {
                prompt,
                default_count,
                least,
            },
            Question::Port { prompt, default_port } => Question::Port { prompt, default_port },
            Question::Auth { prompt, default_choice } => Question::Auth { prompt, default_choice },
            Question::Confirm { prompt, default_answer } => Question::Confirm {
                prompt,
                default_answer,
            },
            Question::Nothing => Question::Nothing,
        }
    }
}

/// The ways to log in, in the order in which they are offered.
pub const AUTH_KEY: &'static str = "SSH key";

/// The second way to log in.
pub const AUTH_PASSWORD: &'static str = "Password";

/// What is said to a number of servers that is too small.
pub const TOO_FEW_SERVERS: &'static str = "At least 1 server required";

/// An answer. Its text is `S`.
#[derive(Debug)]
pub enum Answer<S> {
    Text(S),
    Count(usize),
    Port(u16),
    Auth(usize),
    Confirm(bool),
}

impl View for Answer<String> {
    type V = Answer<Seq<char>>;

    open spec fn view(&self) -> Answer<Seq<char>> {
        match *self {
            Answer::Text(s) => Answer::Text(s@),
            Answer::Count(n) => Answer::Count(n),
            Answer::Port(p) => Answer::Port(p),
            Answer::Auth(i) => Answer::Auth(i),
            Answer::Confirm(b) => Answer::Confirm(b),
        }
    }
}

/// What a node is asked about for.
#[derive(Debug, Clone, Copy, PartialEq, Eq, Structural)]
pub enum Group {
    Server,
    Worker,
}

/// What is asked next.
#[derive(Debug, Clone, Copy, PartialEq, Eq, Structural)]
pub enum Stage {
    Name,
    Servers,
    User,
    Auth,
    Key,
    Password,
    NodeHost(Group),
    NodePort(Group),
    NodeUser(Group),
    NodeAuth(Group),
    NodeKey(Group),
    NodePassword(Group),
    NodeName(Group),
    Schedulable,
    Workers,
    Version,
    Deploy,
    RancherName,
    Done,
}

/// What has been answered so far, and what is asked next.
#[derive(Debug)]
pub struct Questionnaire {
    pub stage: Stage,
    pub name: String,
    pub servers: usize,
    pub user: String,
    pub by_key: bool,
    pub key_path: String,
    pub password: String,
    pub server_nodes: Vec<NodeInfo>,
    pub worker_nodes: Vec<NodeInfo>,
    /// The node that is being asked about.
    pub node: NodeInfo,
    pub use_as_workers: bool,
    pub workers: usize,
    pub version: String,
    pub deploy: bool,
    pub rancher: String,
}

/// The texts and numbers of a [`Questionnaire`].
#[verifier::ext_equal]
pub struct Draft {
    pub stage: Stage,
    pub name: Seq<char>,
    pub servers: usize,
    pub user: Seq<char>,
    pub by_key: bool,
    pub key_path: Seq<char>,
    pub password: Seq<char>,
    pub server_nodes: Seq<NodeView>,
    pub worker_nodes: Seq<NodeView>,
    pub node: NodeView,
    pub use_as_workers: bool,
    pub workers: usize,
    pub version: Seq<char>,
    pub deploy: bool,
    pub rancher: Seq<char>,
}

impl View for Questionnaire {
    type V = Draft;

    open spec fn view(&self) -> Draft {
        Draft {
            stage: self.stage,
            name: self.name@,
            servers: self.servers,
            user: self.user@,
            by_key: self.by_key,
            key_path: self.key_path@,
            password: self.password@,
            server_nodes: node_texts(self.server_nodes@),
            worker_nodes: node_texts(self.worker_nodes@),
            node: self.node@,
            use_as_workers: self.use_as_workers,
            workers: self.workers,
            version: self.version@,
            deploy: self.deploy,
            rancher: self.rancher@,
        }
    }
}

/// Whether a node logs in either with a key or with a password, and carries
/// nothing of the other.
pub open spec fn one_login(node: NodeView) -> bool {
    ||| node.auth == "key"@ && node.password.len() == 0
    ||| node.auth == "password"@ && node.key_path.len() == 0
}

/// Whether all of these nodes do so.
pub open spec fn one_login_each(nodes: Seq<NodeView>) -> bool {
    forall|i: int| 0 <= i < nodes.len() ==> one_login(#[trigger] nodes[i])
}

impl Draft {
    /// The question that is asked next. `key` is the path of the user's own key.
    pub open spec fn question(self, key: Seq<char>) -> Question<Seq<char>> {
        match self.stage {
            Stage::Name => Question::Text {
                prompt: "Cluster name",
                default: Some("pifrost-cluster"@),
            },
            Stage::Servers => Question::Count {
                prompt: "Number of control-plane (server) nodes",
                default_count: 1,
                least: 1,
            },
            Stage::User => Question::Text {
                prompt: "Default SSH user for all nodes",
                default: Some("root"@),
            },
            Stage::Auth => Question::Auth {
                prompt: "Default SSH authentication method",
                default_choice: 0,
            },
            Stage::Key => Question::Text { prompt: "Default SSH key path", default: Some(key) },
            Stage::Password => Question::Text { prompt: "Default SSH password", default: None },
            Stage::NodeHost(_) => Question::Text {
                prompt: "IP address or hostname",
                default: None,
            },
            Stage::NodePort(_) => Question::Port { prompt: "SSH port", default_port: 22 },
            Stage::NodeUser(_) => Question::Text { prompt: "SSH user", default: Some(self.user) },
            Stage::NodeAuth(_) => Question::Auth {
                prompt: "Auth method for this node",
                default_choice: if self.by_key {
                    0
                } else {
                    1
                },
            },
            Stage::NodeKey(_) => Question::Text {
                prompt: "SSH key path",
                default: Some(self.key_path),
            },
            Stage::NodePassword(_) => Question::Text {
                prompt: "SSH password",
                default: Some(self.password),
            },
            Stage::NodeName(_) => Question::Text {
                prompt: "Node hostname (leave empty to auto-generate)",
                default: Some(Seq::empty()),
            },
            Stage::Schedulable => Question::Confirm {
                prompt: "Also use control-plane nodes as workers (schedulable)?",
                default_answer: true,
            },
            Stage::Workers => Question::Count {
                prompt: "Number of dedicated worker nodes",
                default_count: 0,
                least: 0,
            },
            Stage::Version => Question::Text {
                prompt: "RKE2 version",
                default: Some("v1.32.3+rke2r1"@),
            },
            Stage::Deploy => Question::Confirm {
                prompt: "Deploy Rancher management UI?",
                default_answer: true,
            },
            Stage::RancherName => Question::Text {
                prompt: "Rancher UI hostname (or IP)",
                default: Some("rancher.pifrost.local"@),
            },
            Stage::Done => Question::Nothing,
        }
    }

    /// Whether an answer is one to the question that is asked, and large enough
    /// if it is a number of servers.
    pub open spec fn accepts(self, answer: Answer<Seq<char>>) -> bool {
        match self.stage {
            Stage::Servers => answer matches Answer::Count(n) && n >= 1,
            Stage::Workers => answer is Count,
            Stage::Auth => answer matches Answer::Auth(i) && i < 2,
            Stage::NodeAuth(_) => answer matches Answer::Auth(i) && i < 2,
            Stage::NodePort(_) => answer is Port,
            Stage::Schedulable => answer is Confirm,
            Stage::Deploy => answer is Confirm,
            Stage::Done => false,
            _ => answer is Text,
        }
    }

    /// The draft with the node that was asked about, which gets this name.
    pub open spec fn with_node(self, group: Group, hostname: Seq<char>) -> Draft {
        let node = NodeView { hostname, ..self.node };
        match group {
            Group::Server => {
                let nodes = self.server_nodes.push(node);
                Draft {
                    node,
                    server_nodes: nodes,
                    stage: if nodes.len() < self.servers {
                        Stage::NodeHost(group)
                    } else {
                        Stage::Schedulable
                    },
                    ..self
                }
            },
            Group::Worker => {
                let nodes = self.worker_nodes.push(node);
                Draft {
                    node,
                    worker_nodes: nodes,
                    stage: if nodes.len() < self.workers {
                        Stage::NodeHost(group)
                    } else {
                        Stage::Version
                    },
                    ..self
                }
            },
        }
    }

    /// The draft after a text was given.
    pub open spec fn with_text(self, s: Seq<char>) -> Draft {
        match self.stage {
            Stage::Name => Draft { name: s, stage: Stage::Servers, ..self },
            Stage::User => Draft { user: s, stage: Stage::Auth, ..self },
            Stage::Key => Draft {
                key_path: s,
                password: Seq::empty(),
                stage: Stage::NodeHost(Group::Server),
                ..self
            },
            Stage::Password => Draft {
                key_path: Seq::empty(),
                password: s,
                stage: Stage::NodeHost(Group::Server),
                ..self
            },
            Stage::NodeHost(g) => Draft {
                node: NodeView { host: s, ..self.node },
                stage: Stage::NodePort(g),
                ..self
            },
            Stage::NodeUser(g) => Draft {
                node: NodeView { user: s, ..self.node },
                stage: Stage::NodeAuth(g),
                ..self
            },
            Stage::NodeKey(g) => Draft {
                node: NodeView {
                    auth: "key"@,
                    key_path: s,
                    password: Seq::empty(),
                    ..self.node
                },
                stage: Stage::NodeName(g),
                ..self
            },
            Stage::NodePassword(g) => Draft {
                node: NodeView {
                    auth: "password"@,
                    key_path: Seq::empty(),
                    password: s,
                    ..self.node
                },
                stage: Stage::NodeName(g),
                ..self
            },
            Stage::NodeName(g) => self.with_node(g, s),
            Stage::Version => Draft { version: s, stage: Stage::Deploy, ..self },
            Stage::RancherName => Draft { rancher: s, stage: Stage::Done, ..self },
            _ => self,
        }
    }

    /// The draft after an answer that is accepted.
    pub open spec fn after(self, answer: Answer<Seq<char>>) -> Draft {
        match (self.stage, answer) {
            (_, Answer::Text(s)) => self.with_text(s),
            (Stage::Servers, Answer::Count(n)) => Draft {
                servers: n,
                stage: Stage::User,
                ..self
            },
            (Stage::Workers, Answer::Count(n)) => Draft {
                workers: n,
                stage: if n > 0 {
                    Stage::NodeHost(Group::Worker)
                } else {
                    Stage::Version
                },
                ..self
            },
            (Stage::Auth, Answer::Auth(i)) => Draft {
                by_key: i == 0,
                stage: if i == 0 {
                    Stage::Key
                } else {
                    Stage::Password
                },
                ..self
            },
            (Stage::NodeAuth(g), Answer::Auth(i)) => Draft {
                stage: if i == 0 {
                    Stage::NodeKey(g)
                } else {
                    Stage::NodePassword(g)
                },
                ..self
            },
            (Stage::NodePort(g), Answer::Port(p)) => Draft {
                node: NodeView { port: p, ..self.node },
                stage: Stage::NodeUser(g),
                ..self
            },
            (Stage::Schedulable, Answer::Confirm(b)) => Draft {
                use_as_workers: b,
                stage: Stage::Workers,
                ..self
            },
            (Stage::Deploy, Answer::Confirm(b)) => Draft {
                deploy: b,
                stage: if b {
                    Stage::RancherName
                } else {
                    Stage::Done
                },
                ..self
            },
            _ => self,
        }
    }

    /// The draft before the first answer.
    pub open spec fn first() -> Draft {
        Draft {
            stage: Stage::Name,
            name: Seq::empty(),
            servers: 0,
            user: Seq::empty(),
            by_key: true,
            key_path: Seq::empty(),
            password: Seq::empty(),
            server_nodes: Seq::empty(),
            worker_nodes: Seq::empty(),
            node: NodeView {
                hostname: Seq::empty(),
                host: Seq::empty(),
                port: 22,
                user: Seq::empty(),
                auth: "key"@,
                key_path: Seq::empty(),
                password: Seq::empty(),
            },
            use_as_workers: true,
            workers: 0,
            version: Seq::empty(),
            deploy: true,
            rancher: Seq::empty(),
        }
    }

    /// How far the questions have come: the number of parts that are left.
    pub open spec fn parts_left(self) -> nat {
        match self.stage {
            Stage::Name => 12,
            Stage::Servers => 11,
            Stage::User => 10,
            Stage::Auth => 9,
            Stage::Key => 8,
            Stage::Password => 8,
            Stage::Schedulable => 6,
            Stage::Workers => 5,
            Stage::Version => 3,
            Stage::Deploy => 2,
            Stage::RancherName => 1,
            Stage::Done => 0,
            _ => match self.group() {
                Group::Server => 7,
                Group::Worker => 4,
            },
        }
    }

    /// What the node that is asked about is for.
    pub open spec fn group(self) -> Group {
        match self.stage {
            Stage::NodeHost(g) => g,
            Stage::NodePort(g) => g,
            Stage::NodeUser(g) => g,
            Stage::NodeAuth(g) => g,
            Stage::NodeKey(g) => g,
            Stage::NodePassword(g) => g,
            Stage::NodeName(g) => g,
            _ => Group::Server,
        }
    }

    /// The number of questions that are left on the node that is asked about.
    pub open spec fn questions_left(self) -> nat {
        match self.stage {
            Stage::NodeHost(_) => 6,
            Stage::NodePort(_) => 5,
            Stage::NodeUser(_) => 4,
            Stage::NodeAuth(_) => 3,
            Stage::NodeKey(_) => 2,
            Stage::NodePassword(_) => 2,
            Stage::NodeName(_) => 1,
            _ => 0,
        }
    }

    /// Whether a node is being asked about.
    pub open spec fn in_node(self) -> bool {
        self.questions_left() > 0
    }

    /// The number of nodes that are left in the group that is asked about.
    pub open spec fn nodes_left(self) -> int {
        if !self.in_node() {
            0
        } else {
            match self.group() {
                Group::Server => self.servers - self.server_nodes.len(),
                Group::Worker => self.workers - self.worker_nodes.len(),
            }
        }
    }

    /// The number of the node that is asked about.
    pub open spec fn number_of_node(self) -> nat {
        match self.group() {
            Group::Server => self.server_nodes.len() + 1,
            Group::Worker => self.worker_nodes.len() + 1,
        }
    }

    /// What holds of every draft: no more nodes than were announced, all of them
    /// once their part is over, and one way to log in for each.
    pub open spec fn valid(self) -> bool {
        &&& one_login_each(self.server_nodes)
        &&& one_login_each(self.worker_nodes)
        &&& self.parts_left() <= 10 ==> self.servers >= 1
        &&& self.parts_left() > 7 ==> self.server_nodes.len() == 0
        &&& self.parts_left() == 7 ==> self.server_nodes.len() < self.servers
        &&& self.parts_left() < 7 ==> self.server_nodes.len() == self.servers
        &&& self.parts_left() > 4 ==> self.worker_nodes.len() == 0
        &&& self.parts_left() == 4 ==> self.worker_nodes.len() < self.workers
        &&& self.parts_left() < 4 ==> self.worker_nodes.len() == self.workers
        &&& self.stage is NodeName ==> one_login(self.node)
        &&& self.parts_left() > 0 ==> self.rancher.len() == 0
        &&& self.stage is RancherName ==> self.deploy
        &&& !self.deploy ==> self.rancher.len() == 0
    }
}

impl Questionnaire {
    /// No question has been answered yet.
    pub fn new() -> (r: Questionnaire)
        ensures
            r@ == Draft::first(),
            r@.valid(),
    {
        let r = Questionnaire {
            stage: Stage::Name,
            name: String::new(),
            servers: 0,
            user: String::new(),
            by_key: true,
            key_path: String::new(),
            password: String::new(),
            server_nodes: Vec::new(),
            worker_nodes: Vec::new(),
            node: NodeInfo {
                hostname: String::new(),
                host: String::new(),
                port: 22,
                user: String::new(),
                auth: "key".to_string(),
                key_path: String::new(),
                password: String::new(),
            },
            use_as_workers: true,
            workers: 0,
            version: String::new(),
            deploy: true,
            rancher: String::new(),
        };
        assert(r@ =~= Draft::first());
        r
    }

    /// The question that is asked next. `key` is the path of the user's own key.
    pub fn question(&self, key: &str) -> (r: Question<String>)
        ensures
            r@ == self@.question(key@),
    {
        match self.stage {
            Stage::Name => Question::Text {
                prompt: "Cluster name",
                default: Some(default_cluster_name()),
            },
            Stage::Servers => Question::Count {
                prompt: "Number of control-plane (server) nodes",
                default_count: 1,
                least: 1,
            },
            Stage::User => Question::Text {
                prompt: "Default SSH user for all nodes",
                default: Some(default_ssh_user()),
            },
            Stage::Auth => Question::Auth {
                prompt: "Default SSH authentication method",
                default_choice: 0,
            },
            Stage::Key => Question::Text {
                prompt: "Default SSH key path",
                default: Some(key.to_string()),
            },
            Stage::Password => Question::Text { prompt: "Default SSH password", default: None },
            Stage::NodeHost(_) => Question::Text {
                prompt: "IP address or hostname",
                default: None,
            },
            Stage::NodePort(_) => Question::Port {
                prompt: "SSH port",
                default_port: default_port(),
            },
            Stage::NodeUser(_) => Question::Text {
                prompt: "SSH user",
                default: Some(self.user.clone()),
            },
            Stage::NodeAuth(_) => Question::Auth {
                prompt: "Auth method for this node",
                default_choice: if self.by_key {
                    0
                } else {
                    1
                },
            },
            Stage::NodeKey(_) => Question::Text {
                prompt: "SSH key path",
                default: Some(self.key_path.clone()),
            },
            Stage::NodePassword(_) => Question::Text {
                prompt: "SSH password",
                default: Some(self.password.clone()),
            },
            Stage::NodeName(_) => Question::Text {
                prompt: "Node hostname (leave empty to auto-generate)",
                default: Some(String::new()),
            },
            Stage::Schedulable => Question::Confirm {
                prompt: "Also use control-plane nodes as workers (schedulable)?",
                default_answer: true,
            },
            Stage::Workers => Question::Count {
                prompt: "Number of dedicated worker nodes",
                default_count: 0,
                least: 0,
            },
            Stage::Version => Question::Text {
                prompt: "RKE2 version",
                default: Some(default_rke2_version()),
            },
            Stage::Deploy => Question::Confirm {
                prompt: "Deploy Rancher management UI?",
                default_answer: true,
            },
            Stage::RancherName => Question::Text {
                prompt: "Rancher UI hostname (or IP)",
                default: Some(default_rancher_hostname()),
            },
            Stage::Done => Question::Nothing,
        }
    }

    /// What is shown before the first question on a node.
    pub fn heading(&self) -> (r: Option<String>)
        requires
            self@.valid(),
        ensures
            match r {
                Some(h) => h@ == heading_text(self@.group(), self@.number_of_node())
                    && self.stage is NodeHost,
                None => !(self.stage is NodeHost),
            },
    {
        match self.stage {
            Stage::NodeHost(Group::Server) => {
                let n: u64 = self.server_nodes.len() as u64;
                Some(heading_of("--- Control-plane node #", n + 1))
            },
            Stage::NodeHost(Group::Worker) => {
                let n: u64 = self.worker_nodes.len() as u64;
                Some(heading_of("--- Worker node #", n + 1))
            },
            _ => None,
        }
    }

    /// Takes up an answer, if it is accepted, and says whether it was.
    pub fn answer(&mut self, answer: Answer<String>) -> (r: bool)
        requires
            old(self)@.valid(),
        ensures
            r == old(self)@.accepts(answer@),
            final(self)@ == (if r {
                old(self)@.after(answer@)
            } else {
                old(self)@
            }),
            final(self)@.valid(),
    {
        proof {
            if self@.accepts(answer@) {
                lemma_answers_keep_valid(self@, answer@);
            }
        }
        match answer {
            Answer::Text(s) => self.answer_text(s),
            Answer::Count(n) => match self.stage {
                Stage::Servers => {
                    if n < 1 {
                        return false;
                    }
                    self.servers = n;
                    self.stage = Stage::User;
                    true
                },
                Stage::Workers => {
                    self.workers = n;
                    self.stage = if n > 0 {
                        Stage::NodeHost(Group::Worker)
                    } else {
                        Stage::Version
                    };
                    true
                },
                _ => false,
            },
            Answer::Port(p) => match self.stage {
                Stage::NodePort(g) => {
                    self.node.port = p;
                    self.stage = Stage::NodeUser(g);
                    true
                },
                _ => false,
            },
            Answer::Auth(i) => {
                if i >= 2 {
                    return false;
                }
                match self.stage {
                    Stage::Auth => {
                        self.by_key = i == 0;
                        self.stage = if i == 0 {
                            Stage::Key
                        } else {
                            Stage::Password
                        };
                        true
                    },
                    Stage::NodeAuth(g) => {
                        self.stage = if i == 0 {
                            Stage::NodeKey(g)
                        } else {
                            Stage::NodePassword(g)
                        };
                        true
                    },
                    _ => false,
                }
            },
            Answer::Confirm(b) => match self.stage {
                Stage::Schedulable => {
                    self.use_as_workers = b;
                    self.stage = Stage::Workers;
                    true
                },
                Stage::Deploy => {
                    self.deploy = b;
                    self.stage = if b {
                        Stage::RancherName
                    } else {
                        Stage::Done
                    };
                    true
                },
                _ => false,
            },
        }
    }

    /// Takes up a text, if one is asked for, and says whether it was.
    fn answer_text(&mut self, s: String) -> (r: bool)
        requires
            old(self)@.valid(),
        ensures
            r == old(self)@.accepts(Answer::Text(s@)),
            final(self)@ == (if r {
                old(self)@.with_text(s@)
            } else {
                old(self)@
            }),
    {
        let ghost before = self@;
        match self.stage {
            Stage::Name => {
                self.name = s;
                self.stage = Stage::Servers;
                true
            },
            Stage::User => {
                self.user = s;
                self.stage = Stage::Auth;
                true
            },
            Stage::Key => {
                self.key_path = s;
                self.password = String::new();
                self.stage = Stage::NodeHost(Group::Server);
                true
            },
            Stage::Password => {
                self.key_path = String::new();
                self.password = s;
                self.stage = Stage::NodeHost(Group::Server);
                true
            },
            Stage::NodeHost(g) => {
                self.node.host = s;
                self.stage = Stage::NodePort(g);
                true
            },
            Stage::NodeUser(g) => {
                self.node.user = s;
                self.stage = Stage::NodeAuth(g);
                true
            },
            Stage::NodeKey(g) => {
                self.node.auth = "key".to_string();
                self.node.key_path = s;
                self.node.password = String::new();
                self.stage = Stage::NodeName(g);
                true
            },
            Stage::NodePassword(g) => {
                self.node.auth = "password".to_string();
                self.node.key_path = String::new();
                self.node.password = s;
                self.stage = Stage::NodeName(g);
                true
            },
            Stage::NodeName(Group::Server) => {
                self.node.hostname = s;
                let node = self.node.clone();
                let ghost nodes = self.server_nodes@;
                self.server_nodes.push(node);
                assert(node_texts(self.server_nodes@) =~= node_texts(nodes).push(node@));
                self.stage = if self.server_nodes.len() < self.servers {
                    Stage::NodeHost(Group::Server)
                } else {
                    Stage::Schedulable
                };
                assert(self@ =~= before.with_text(s@));
                true
            },
            Stage::NodeName(Group::Worker) => {
                self.node.hostname = s;
                let node = self.node.clone();
                let ghost nodes = self.worker_nodes@;
                self.worker_nodes.push(node);
                assert(node_texts(self.worker_nodes@) =~= node_texts(nodes).push(node@));
                self.stage = if self.worker_nodes.len() < self.workers {
                    Stage::NodeHost(Group::Worker)
                } else {
                    Stage::Version
                };
                assert(self@ =~= before.with_text(s@));
                true
            },
            Stage::Version => {
                self.version = s;
                self.stage = Stage::Deploy;
                true
            },
            Stage::RancherName => {
                self.rancher = s;
                self.stage = Stage::Done;
                true
            },
            _ => false,
        }
    }

    /// The configuration that the answers make. Every measure of hardening is
    /// taken, and nothing is added to the configuration of RKE2.
    pub fn finish(self) -> (r: NodeConfig)
        requires
            self@.valid(),
            self.stage is Done,
        ensures
            r.cluster.name@ == self@.name,
            r.cluster.use_servers_as_workers == self@.use_as_workers,
            node_texts(r.cluster.server_nodes@) == self@.server_nodes,
            node_texts(r.cluster.worker_nodes@) == self@.worker_nodes,
            r.cluster.server_nodes@.len() >= 1,
            r.rke2.version@ == self@.version,
            r.rke2.extra_args@ == Seq::<char>::empty(),
            r.hardening.zero_logs && r.hardening.no_fs_bloat && r.hardening.disable_swap,
            r.rancher.deploy == self@.deploy,
            r.rancher.hostname@ == self@.rancher,
    {
        NodeConfig {
            cluster: ClusterConfig {
                name: self.name,
                use_servers_as_workers: self.use_as_workers,
                server_nodes: self.server_nodes,
                worker_nodes: self.worker_nodes,
            },
            rke2: Rke2Config { version: self.version, extra_args: String::new() },
            hardening: HardeningConfig::default(),
            rancher: RancherConfig { deploy: self.deploy, hostname: self.rancher },
        }
    }
}

/// What is shown before the questions on the node of this number.
pub open spec fn heading_text(group: Group, number: nat) -> Seq<char> {
    match group {
        Group::Server => "--- Control-plane node #"@ + decimal(number) + " ---"@,
        Group::Worker => "--- Worker node #"@ + decimal(number) + " ---"@,
    }
}

fn heading_of(label: &str, number: u64) -> (r: String)
    ensures
        r@ == label@ + decimal(number as nat) + " ---"@,
{
    concat3(label, decimal_of(number).as_str(), " ---")
}

/// The first draft is valid.
pub proof fn lemma_first_is_valid()
    ensures
        Draft::first().valid(),
{
}

/// An answer that is accepted keeps the draft valid.
pub proof fn lemma_answers_keep_valid(draft: Draft, answer: Answer<Seq<char>>)
    requires
        draft.valid(),
        draft.accepts(answer),
    ensures
        draft.after(answer).valid(),
{
}

/// The questions come to an end: with every answer that is accepted, a part of
/// them is done; or one node fewer is left in the same part; or one question
/// fewer on the same node.
pub proof fn lemma_questions_end(draft: Draft, answer: Answer<Seq<char>>)
    requires
        draft.valid(),
        draft.accepts(answer),
    ensures
        ({
            let next = draft.after(answer);
            ||| next.parts_left() < draft.parts_left()
            ||| next.parts_left() == draft.parts_left() && 0 <= next.nodes_left()
                < draft.nodes_left()
            ||| next.parts_left() == draft.parts_left() && next.nodes_left() == draft.nodes_left()
                && next.questions_left() < draft.questions_left()
        }),
{
}

/// When the questions are over there are as many nodes as were announced, at
/// least one of them a server, and each has one way to log in; where Rancher is
/// not deployed it has no name.
pub proof fn lemma_finished_draft(draft: Draft)
    requires
        draft.valid(),
        draft.stage is Done,
    ensures
        draft.server_nodes.len() == draft.servers,
        draft.servers >= 1,
        draft.worker_nodes.len() == draft.workers,
        one_login_each(draft.server_nodes),
        one_login_each(draft.worker_nodes),
        !draft.deploy ==> draft.rancher.len() == 0,
{
}

/// Answers stand: what was answered is not changed by the answers to later
/// questions, and the nodes that were described stay where they are.
pub proof fn lemma_answers_stand(draft: Draft, answer: Answer<Seq<char>>)
    requires
        draft.accepts(answer),
    ensures
        ({
            let next = draft.after(answer);
            &&& draft.stage != Stage::Name ==> next.name == draft.name
            &&& draft.stage != Stage::Servers ==> next.servers == draft.servers
            &&& draft.stage != Stage::User ==> next.user == draft.user
            &&& draft.stage != Stage::Schedulable ==> next.use_as_workers == draft.use_as_workers
            &&& draft.stage != Stage::Workers ==> next.workers == draft.workers
            &&& draft.stage != Stage::Version ==> next.version == draft.version
            &&& draft.stage != Stage::Deploy ==> next.deploy == draft.deploy
            &&& draft.server_nodes.is_prefix_of(next.server_nodes)
            &&& draft.worker_nodes.is_prefix_of(next.worker_nodes)
        }),
{
    let next = draft.after(answer);
    assert(next.server_nodes.take(draft.server_nodes.len() as int) =~= draft.server_nodes);
    assert(next.worker_nodes.take(draft.worker_nodes.len() as int) =~= draft.worker_nodes);
}

/// The six answers on a node make that node: it is added to its group with what
/// was answered, and with nothing for the way to log in that was not chosen.
pub proof fn lemma_node_is_as_answered(
    draft: Draft,
    group: Group,
    host: Seq<char>,
    port: u16,
    user: Seq<char>,
    by_key: bool,
    secret: Seq<char>,
    hostname: Seq<char>,
)
    requires
        draft.stage == Stage::NodeHost(group),
    ensures
        ({
            let choice: usize = if by_key {
                0
            } else {
                1
            };
            let next = draft.after(Answer::Text(host)).after(Answer::Port(port)).after(
                Answer::Text(user),
            ).after(Answer::Auth(choice)).after(Answer::Text(secret)).after(
                Answer::Text(hostname),
            );
            let node = NodeView {
                hostname,
                host,
                port,
                user,
                auth: if by_key {
                    "key"@
                } else {
                    "password"@
                },
                key_path: if by_key {
                    secret
                } else {
                    Seq::empty()
                },
                password: if by_key {
                    Seq::empty()
                } else {
                    secret
                },
            };
            match group {
                Group::Server => next.server_nodes == draft.server_nodes.push(node)
                    && next.worker_nodes == draft.worker_nodes,
                Group::Worker => next.worker_nodes == draft.worker_nodes.push(node)
                    && next.server_nodes == draft.server_nodes,
            }
        }),
{
}

} // verus!
