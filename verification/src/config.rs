//! The configuration of a cluster and of the nodes in it.

use vstd::prelude::*;

verus! {

/// How a node is reached and who logs in.
#[derive(Debug)]
pub struct NodeInfo {
    pub hostname: String,
    pub host: String,
    pub port: u16,
    pub user: String,
    /// "key" or "password"
    pub auth: String,
    /// Path to SSH private key (used when auth = "key")
    pub key_path: String,
    /// SSH password (used when auth = "password")
    pub password: String,
}

impl Clone for NodeInfo {
    fn clone(&self) -> (r: Self)
        ensures
            r == *self,
    {
        NodeInfo {
            hostname: self.hostname.clone(),
            host: self.host.clone(),
            port: self.port,
            user: self.user.clone(),
            auth: self.auth.clone(),
            key_path: self.key_path.clone(),
            password: self.password.clone(),
        }
    }
}

/// The texts of a [`NodeInfo`].
#[verifier::ext_equal]
pub struct NodeView {
    pub hostname: Seq<char>,
    pub host: Seq<char>,
    pub port: u16,
    pub user: Seq<char>,
    pub auth: Seq<char>,
    pub key_path: Seq<char>,
    pub password: Seq<char>,
}

impl View for NodeInfo {
    type V = NodeView;

    open spec fn view(&self) -> NodeView {
        NodeView {
            hostname: self.hostname@,
            host: self.host@,
            port: self.port,
            user: self.user@,
            auth: self.auth@,
            key_path: self.key_path@,
            password: self.password@,
        }
    }
}

/// The texts of a list of nodes.
pub open spec fn node_texts(nodes: Seq<NodeInfo>) -> Seq<NodeView> {
    nodes.map_values(|n: NodeInfo| n@)
}

/// The authentication method of a node that names none.
pub fn default_auth_method() -> (r: String)
    ensures
        r@ == "key"@,
{
    "key".to_string()
}

/// The SSH port of a node that names none.
pub fn default_port() -> (r: u16)
    ensures
        r == 22,
{
    22
}

/// The SSH user of a node that names none.
pub fn default_ssh_user() -> (r: String)
    ensures
        r@ == "root"@,
{
    "root".to_string()
}

/// Whether `base` is a drive and nothing more, such as `C:`, where the separator
/// is a backslash.
pub open spec fn is_drive_only(base: Seq<char>, separator: char) -> bool {
    &&& separator == '\\'
    &&& base.len() == 2
    &&& ('a' <= base[0] <= 'z' || 'A' <= base[0] <= 'Z')
    &&& base[1] == ':'
}

/// The path of `leaf` in the directory `base`.
pub open spec fn path_in(base: Seq<char>, leaf: Seq<char>, separator: char) -> Seq<char> {
    if base.len() == 0 || base.last() == '/' || base.last() == separator || is_drive_only(
        base,
        separator,
    ) {
        base + leaf
    } else {
        base.push(separator) + leaf
    }
}

/// The path of `leaf` in the directory `base`.
pub fn join_path(base: String, leaf: &str, separator: char) -> (r: String)
    ensures
        r@ == path_in(base@, leaf@, separator),
{
    let n: usize = base.as_str().unicode_len();
    let mut r = base;
    let bare = n == 0 || r.as_str().get_char(n - 1) == '/' || r.as_str().get_char(n - 1)
        == separator || (separator == '\\' && n == 2 && r.as_str().get_char(1) == ':' && (('a'
        <= r.as_str().get_char(0) && r.as_str().get_char(0) <= 'z') || ('A' <= r.as_str().get_char(
        0,
    ) && r.as_str().get_char(0) <= 'Z')));
    if !bare {
        r.push(separator);
    }
    r.append(leaf);
    r
}

/// The directory that holds a user's files: `HOME`, else `USERPROFILE`, else `~`.
pub open spec fn home_directory(home: Option<String>, user_profile: Option<String>) -> Seq<char> {
    match (home, user_profile) {
        (Some(h), _) => h@,
        (None, Some(p)) => p@,
        (None, None) => "~"@,
    }
}

/// The SSH key of a node that names none: `.ssh/id_rsa` in the home directory.
/// `home` and `user_profile` are what the environment holds of `HOME` and
/// `USERPROFILE`; `separator` stands between the parts of a path.
pub fn default_key_path(
    home: Option<String>,
    user_profile: Option<String>,
    separator: char,
) -> (r: String)
    ensures
        r@ == path_in(
            path_in(home_directory(home, user_profile), ".ssh"@, separator),
            "id_rsa"@,
            separator,
        ),
{
    let base = match (home, user_profile) {
        (Some(h), _) => h,
        (None, Some(p)) => p,
        (None, None) => "~".to_string(),
    };
    join_path(join_path(base, ".ssh", separator), "id_rsa", separator)
}

/// The nodes of a cluster.
#[derive(Debug)]
pub struct ClusterConfig {
    pub name: String,
    pub use_servers_as_workers: bool,
    pub server_nodes: Vec<NodeInfo>,
    pub worker_nodes: Vec<NodeInfo>,
}

impl Clone for ClusterConfig {
    fn clone(&self) -> (r: Self)
        ensures
            r.name == self.name,
            r.use_servers_as_workers == self.use_servers_as_workers,
            r.server_nodes@ == self.server_nodes@,
            r.worker_nodes@ == self.worker_nodes@,
    {
        let r = ClusterConfig {
            name: self.name.clone(),
            use_servers_as_workers: self.use_servers_as_workers,
            server_nodes: self.server_nodes.clone(),
            worker_nodes: self.worker_nodes.clone(),
        };
        assert(r.server_nodes@ =~= self.server_nodes@);
        assert(r.worker_nodes@ =~= self.worker_nodes@);
        r
    }
}

/// The name of a cluster that has none.
pub fn default_cluster_name() -> (r: String)
    ensures
        r@ == "pifrost-cluster"@,
{
    "pifrost-cluster".to_string()
}

/// Which RKE2 is installed, and what is added to its configuration.
#[derive(Debug)]
pub struct Rke2Config {
    pub version: String,
    pub extra_args: String,
}

impl Clone for Rke2Config {
    fn clone(&self) -> (r: Self)
        ensures
            r == *self,
    {
        Rke2Config { version: self.version.clone(), extra_args: self.extra_args.clone() }
    }
}

impl Default for Rke2Config {
    fn default() -> (r: Self)
        ensures
            r.version@ == "v1.32.3+rke2r1"@,
            r.extra_args@ == Seq::<char>::empty(),
    {
        Rke2Config { version: default_rke2_version(), extra_args: String::new() }
    }
}

/// The version of RKE2 where none is named.
pub fn default_rke2_version() -> (r: String)
    ensures
        r@ == "v1.32.3+rke2r1"@,
{
    "v1.32.3+rke2r1".to_string()
}

/// Which measures are taken on each node.
#[derive(Debug, Clone, Copy, PartialEq, Eq, Structural)]
pub struct HardeningConfig {
    pub zero_logs: bool,
    pub no_fs_bloat: bool,
    pub disable_swap: bool,
}

impl Default for HardeningConfig {
    fn default() -> (r: Self)
        ensures
            r.zero_logs && r.no_fs_bloat && r.disable_swap,
    {
        HardeningConfig {
            zero_logs: default_true(),
            no_fs_bloat: default_true(),
            disable_swap: default_true(),
        }
    }
}

/// The setting of a measure that is not mentioned.
pub fn default_true() -> (r: bool)
    ensures
        r,
{
    true
}

/// Whether Rancher is deployed, and under which name.
#[derive(Debug)]
pub struct RancherConfig {
    pub deploy: bool,
    pub hostname: String,
}

impl Clone for RancherConfig {
    fn clone(&self) -> (r: Self)
        ensures
            r == *self,
    {
        RancherConfig { deploy: self.deploy, hostname: self.hostname.clone() }
    }
}

/// The name of the Rancher dashboard where none is given.
pub fn default_rancher_hostname() -> (r: String)
    ensures
        r@ == "rancher.pifrost.local"@,
{
    "rancher.pifrost.local".to_string()
}

impl Default for RancherConfig {
    fn default() -> (r: Self)
        ensures
            r.deploy,
            r.hostname@ == "rancher.pifrost.local"@,
    {
        RancherConfig { deploy: true, hostname: default_rancher_hostname() }
    }
}

/// All that is configured.
#[derive(Debug)]
pub struct NodeConfig {
    pub cluster: ClusterConfig,
    pub rke2: Rke2Config,
    pub hardening: HardeningConfig,
    pub rancher: RancherConfig,
}

impl Clone for NodeConfig {
    fn clone(&self) -> (r: Self)
        ensures
            r.cluster.name == self.cluster.name,
            r.cluster.use_servers_as_workers == self.cluster.use_servers_as_workers,
            r.cluster.server_nodes@ == self.cluster.server_nodes@,
            r.cluster.worker_nodes@ == self.cluster.worker_nodes@,
            r.rke2 == self.rke2,
            r.hardening == self.hardening,
            r.rancher == self.rancher,
    {
        NodeConfig {
            cluster: self.cluster.clone(),
            rke2: self.rke2.clone(),
            hardening: self.hardening,
            rancher: self.rancher.clone(),
        }
    }
}

impl NodeConfig {
    /// The nodes of the cluster: the servers, and after them the workers.
    pub open spec fn nodes(self) -> Seq<NodeInfo> {
        self.cluster.server_nodes@ + self.cluster.worker_nodes@
    }

    /// The number of nodes in the cluster.
    pub fn total_nodes(&self) -> (r: usize)
        requires
            self.nodes().len() <= usize::MAX,
        ensures
            r == self.nodes().len(),
    {
        let servers: usize = self.cluster.server_nodes.len();
        let workers: usize = self.cluster.worker_nodes.len();
        servers + workers
    }
}

/// A configuration to start from.
pub const TEMPLATE: &'static str = r#"[cluster]
name = "my-cluster"
use_servers_as_workers = false

[[cluster.server_nodes]]
host = "192.168.1.10"
port = 22
user = "root"
auth = "key"
key_path = "~/.ssh/id_rsa"
# password = ""       # only needed when auth = "password"
hostname = "ctrl-01"

[[cluster.server_nodes]]
host = "192.168.1.11"
port = 22
user = "root"
auth = "key"
key_path = "~/.ssh/id_rsa"
hostname = "ctrl-02"

[[cluster.server_nodes]]
host = "192.168.1.12"
port = 22
user = "root"
auth = "key"
key_path = "~/.ssh/id_rsa"
hostname = "ctrl-03"

[[cluster.worker_nodes]]
host = "192.168.1.20"
port = 22
user = "root"
auth = "key"
key_path = "~/.ssh/id_rsa"
hostname = "node-01"

[[cluster.worker_nodes]]
host = "192.168.1.21"
port = 22
user = "root"
auth = "key"
key_path = "~/.ssh/id_rsa"
hostname = "node-02"

[rke2]
version = "v1.32.3+rke2r1"
extra_args = ""

[hardening]
zero_logs = true
no_fs_bloat = true
disable_swap = true

[rancher]
deploy = true
hostname = "rancher.mycluster.local"
"#;

} // verus!
