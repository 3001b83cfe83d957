//! Commands on a node over SSH: how they are called, and what their outcome
//! means.
//!
//! A method of [`SshClient`] says which program is to be run for it. What the
//! program gave back is handed to [`SshCall::settle`], which says what the call
//! comes to.

use vstd::prelude::*;
use crate::config::NodeInfo;
use crate::process::{streams, streams_text, ProcessOutput};
use crate::text::{
    exit_text, exit_text_of, same, signed_decimal, signed_decimal_of, succeeded, texts, trim,
    trimmed,
};

verus! {

/// What a command on a node printed, and the code with which it ended.
#[derive(Debug)]
pub struct CommandOutput<S> {
    pub stdout: S,
    pub stderr: S,
    pub code: i32,
}

impl View for CommandOutput<String> {
    type V = CommandOutput<Seq<char>>;

    open spec fn view(&self) -> CommandOutput<Seq<char>> {
        CommandOutput { stdout: self.stdout@, stderr: self.stderr@, code: self.code }
    }
}

impl CommandOutput<String> {
    /// The outcome of a program; one that a signal ended has the code -1.
    pub fn new(stdout: String, stderr: String, code: Option<i32>) -> (r: Self)
        ensures
            r.stdout == stdout,
            r.stderr == stderr,
            match code {
                Some(c) => r.code == c,
                None => r.code == -1,
            },
    {
        let code: i32 = match code {
            Some(c) => c,
            None => -1,
        };
        CommandOutput { stdout, stderr, code }
    }
}

/// Why a command on a node did not do its work.
#[derive(Debug)]
pub enum SshError<S> {
    /// The node did not let the user in.
    Connect { user: S, host: S, stdout: S, stderr: S },
    /// The command ended with another code than zero.
    Exit { code: i32, stdout: S, stderr: S },
    /// The file was not written.
    Upload { remote: S, stdout: S, stderr: S },
}

impl View for SshError<String> {
    type V = SshError<Seq<char>>;

    open spec fn view(&self) -> SshError<Seq<char>> {
        match self {
            SshError::Connect { user, host, stdout, stderr } => SshError::Connect {
                user: user@,
                host: host@,
                stdout: stdout@,
                stderr: stderr@,
            },
            SshError::Exit { code, stdout, stderr } => SshError::Exit {
                code: *code,
                stdout: stdout@,
                stderr: stderr@,
            },
            SshError::Upload { remote, stdout, stderr } => SshError::Upload {
                remote: remote@,
                stdout: stdout@,
                stderr: stderr@,
            },
        }
    }
}

/// The text that reports an error, with all that the command printed.
pub open spec fn error_text(e: SshError<Seq<char>>) -> Seq<char> {
    match e {
        SshError::Connect { user, host, stdout, stderr } => "Failed to connect to "@ + user + "@"@
            + host + streams_text(stdout, stderr),
        SshError::Exit { code, stdout, stderr } => "Command exited with code "@ + signed_decimal(
            code as int,
        ) + ":\n  stderr: "@ + trimmed(stderr) + "\n  stdout: "@ + trimmed(stdout),
        SshError::Upload { remote, stdout, stderr } => "Failed to upload to remote path "@ + remote
            + streams_text(stdout, stderr),
    }
}

impl SshError<String> {
    /// The text that reports the error, with all that the command printed.
    pub fn message(&self) -> (r: String)
        ensures
            r@ == error_text(self@),
    {
        match self {
            SshError::Connect { user, host, stdout, stderr } => {
                let mut r = "Failed to connect to ".to_string();
                r.append(user.as_str());
                r.append("@");
                r.append(host.as_str());
                r.append(streams(stdout.as_str(), stderr.as_str()).as_str());
                r
            },
            SshError::Exit { code, stdout, stderr } => {
                let mut r = "Command exited with code ".to_string();
                r.append(signed_decimal_of(*code).as_str());
                r.append(":\n  stderr: ");
                r.append(trim(stderr.as_str()).as_str());
                r.append("\n  stdout: ");
                r.append(trim(stdout.as_str()).as_str());
                r
            },
            SshError::Upload { remote, stdout, stderr } => {
                let mut r = "Failed to upload to remote path ".to_string();
                r.append(remote.as_str());
                r.append(streams(stdout.as_str(), stderr.as_str()).as_str());
                r
            },
        }
    }
}

/// What is asked of the code with which a command ends.
#[derive(Debug)]
pub enum Judge<S> {
    /// Zero, or else the node cannot be reached.
    Connected { user: S, host: S },
    /// Zero.
    Success,
    /// Nothing.
    AnyCode,
    /// Zero, or else the file was not written.
    Uploaded { remote: S },
}

impl View for Judge<String> {
    type V = Judge<Seq<char>>;

    open spec fn view(&self) -> Judge<Seq<char>> {
        match self {
            Judge::Connected { user, host } => Judge::Connected { user: user@, host: host@ },
            Judge::Success => Judge::Success,
            Judge::AnyCode => Judge::AnyCode,
            Judge::Uploaded { remote } => Judge::Uploaded { remote: remote@ },
        }
    }
}

/// What an outcome comes to.
pub open spec fn judged(judge: Judge<Seq<char>>, output: CommandOutput<Seq<char>>) -> Result<
    CommandOutput<Seq<char>>,
    SshError<Seq<char>>,
> {
    if output.code == 0 {
        Ok(output)
    } else {
        let (stdout, stderr) = (output.stdout, output.stderr);
        match judge {
            Judge::Connected { user, host } => Err(
                SshError::Connect { user, host, stdout, stderr },
            ),
            Judge::Success => Err(SshError::Exit { code: output.code, stdout, stderr }),
            Judge::AnyCode => Ok(output),
            Judge::Uploaded { remote } => Err(SshError::Upload { remote, stdout, stderr }),
        }
    }
}

/// What an outcome comes to, seen from outside.
pub open spec fn outcome_view(r: Result<CommandOutput<String>, SshError<String>>) -> Result<
    CommandOutput<Seq<char>>,
    SshError<Seq<char>>,
> {
    match r {
        Ok(output) => Ok(output@),
        Err(e) => Err(e@),
    }
}

/// What an outcome comes to.
pub fn settle(judge: Judge<String>, output: CommandOutput<String>) -> (r: Result<
    CommandOutput<String>,
    SshError<String>,
>)
    ensures
        outcome_view(r) == judged(judge@, output@),
{
    if output.code == 0 {
        return Ok(output);
    }
    let code: i32 = output.code;
    match judge {
        Judge::AnyCode => Ok(output),
        Judge::Connected { user, host } => Err(
            SshError::Connect { user, host, stdout: output.stdout, stderr: output.stderr },
        ),
        Judge::Success => Err(
            SshError::Exit { code, stdout: output.stdout, stderr: output.stderr },
        ),
        Judge::Uploaded { remote } => Err(
            SshError::Upload { remote, stdout: output.stdout, stderr: output.stderr },
        ),
    }
}

/// A call of `ssh`: its arguments, the password it may ask for, and what is
/// asked of its outcome.
#[derive(Debug)]
pub struct SshCall {
    pub args: Vec<String>,
    pub password: Option<String>,
    pub judge: Judge<String>,
}

impl SshCall {
    /// What the call's outcome comes to.
    pub fn settle(self, output: CommandOutput<String>) -> (r: Result<
        CommandOutput<String>,
        SshError<String>,
    >)
        ensures
            outcome_view(r) == judged(self.judge@, output@),
    {
        settle(self.judge, output)
    }

    /// Whether the call runs `command` on `node`, and asks `judge` of its
    /// outcome.
    pub open spec fn runs(
        self,
        node: NodeInfo,
        command: Seq<char>,
        judge: Judge<Seq<char>>,
    ) -> bool {
        &&& texts(self.args@) == ssh_args(node).push(command)
        &&& match self.password {
            Some(p) => node.auth@ == "password"@ && p == node.password,
            None => node.auth@ != "password"@,
        }
        &&& self.judge@ == judge
    }
}

/// Whether `node` is logged in to with a key that has a path.
pub open spec fn uses_key(node: NodeInfo) -> bool {
    node.auth@ == "key"@ && node.key_path@.len() > 0
}

/// The arguments that name the key to log in with.
pub open spec fn key_args(node: NodeInfo) -> Seq<Seq<char>> {
    if uses_key(node) {
        seq!["-i"@, node.key_path@]
    } else {
        Seq::empty()
    }
}

/// The account that is used on `node`.
pub open spec fn account(node: NodeInfo) -> Seq<char> {
    node.user@ + "@"@ + node.host@
}

/// The arguments with which each call of `ssh` begins.
pub open spec fn ssh_args(node: NodeInfo) -> Seq<Seq<char>> {
    seq![
        "-o"@,
        "StrictHostKeyChecking=accept-new"@,
        "-o"@,
        "UserKnownHostsFile=NUL"@,
        "-o"@,
        "ConnectTimeout=10"@,
        account(node),
    ] + key_args(node)
}

/// The arguments with which each call of `scp` begins.
pub open spec fn scp_args(node: NodeInfo) -> Seq<Seq<char>> {
    seq![
        "-o"@,
        "StrictHostKeyChecking=accept-new"@,
        "-o"@,
        "UserKnownHostsFile=NUL"@,
    ] + key_args(node)
}

/// The command that writes `content` to the file `remote`.
pub open spec fn upload_text(content: Seq<char>, remote: Seq<char>) -> Seq<char> {
    "mkdir -p \"$(dirname '"@ + remote + "')\" && cat > '"@ + remote + "' << 'PIFROST_EOF'\n"@
        + content + "\nPIFROST_EOF"@
}

/// The command that writes `content` to the file `remote`.
pub fn upload_command(content: &str, remote: &str) -> (r: String)
    ensures
        r@ == upload_text(content@, remote@),
{
    let mut r = "mkdir -p \"$(dirname '".to_string();
    r.append(remote);
    r.append("')\" && cat > '");
    r.append(remote);
    r.append("' << 'PIFROST_EOF'\n");
    r.append(content);
    r.append("\nPIFROST_EOF");
    r
}

/// The command that succeeds where `path` is a file.
pub open spec fn file_test(path: Seq<char>) -> Seq<char> {
    "test -f '"@ + path + "'"@
}

/// The command that succeeds where `path` is a file.
pub fn file_test_command(path: &str) -> (r: String)
    ensures
        r@ == file_test(path@),
{
    let mut r = "test -f '".to_string();
    r.append(path);
    r.append("'");
    r
}

/// The command with which a node is tried out.
pub const CONNECT_COMMAND: &'static str = "echo connected";

/// A node that commands can be run on.
#[derive(Debug)]
pub struct SshClient {
    node: NodeInfo,
}

impl SshClient {
    /// The node that commands are run on.
    pub closed spec fn spec_node(self) -> NodeInfo {
        self.node
    }

    /// The call that finds out whether `node` can be reached.
    pub fn connect(node: &NodeInfo) -> (r: SshCall)
        ensures
            r.runs(
                *node,
                CONNECT_COMMAND@,
                Judge::Connected { user: node.user@, host: node.host@ },
            ),
    {
        Self::run(
            node,
            CONNECT_COMMAND,
            Judge::Connected { user: node.user.clone(), host: node.host.clone() },
        )
    }

    /// The client for a node, once the outcome of [`SshClient::connect`] is
    /// known.
    pub fn connected(node: &NodeInfo, output: CommandOutput<String>) -> (r: Result<
        SshClient,
        SshError<String>,
    >)
        ensures
            match r {
                Ok(client) => output.code == 0 && client.spec_node() == *node,
                Err(e) => output.code != 0 && e@ == (SshError::Connect {
                    user: node.user@,
                    host: node.host@,
                    stdout: output.stdout@,
                    stderr: output.stderr@,
                }),
            },
    {
        match settle(
            Judge::Connected { user: node.user.clone(), host: node.host.clone() },
            output,
        ) {
            Ok(_) => Ok(SshClient { node: node.clone() }),
            Err(e) => Err(e),
        }
    }

    /// The arguments with which each call of `ssh` begins.
    pub fn base_args(node: &NodeInfo) -> (r: Vec<String>)
        ensures
            texts(r@) == ssh_args(*node),
    {
        let mut account = node.user.clone();
        account.append("@");
        account.append(node.host.as_str());
        let mut args: Vec<String> = Vec::new();
        args.push("-o".to_string());
        args.push("StrictHostKeyChecking=accept-new".to_string());
        args.push("-o".to_string());
        args.push("UserKnownHostsFile=NUL".to_string());
        args.push("-o".to_string());
        args.push("ConnectTimeout=10".to_string());
        args.push(account);
        if same(node.auth.as_str(), "key") && !node.key_path.as_str().is_empty() {
            args.push("-i".to_string());
            args.push(node.key_path.clone());
        }
        assert(texts(args@) == ssh_args(*node));
        args
    }

    fn scp_base_args(node: &NodeInfo) -> (r: Vec<String>)
        ensures
            texts(r@) == scp_args(*node),
    {
        let mut args: Vec<String> = Vec::new();
        args.push("-o".to_string());
        args.push("StrictHostKeyChecking=accept-new".to_string());
        args.push("-o".to_string());
        args.push("UserKnownHostsFile=NUL".to_string());
        if same(node.auth.as_str(), "key") && !node.key_path.as_str().is_empty() {
            args.push("-i".to_string());
            args.push(node.key_path.clone());
        }
        assert(texts(args@) == scp_args(*node));
        args
    }

    /// The call that runs `command` on `node`.
    pub fn run(node: &NodeInfo, command: &str, judge: Judge<String>) -> (r: SshCall)
        ensures
            r.runs(*node, command@, judge@),
    {
        let mut args = Self::base_args(node);
        let ghost before = args@;
        args.push(command.to_string());
        assert(texts(args@) == texts(before).push(command@));
        let password = if same(node.auth.as_str(), "password") {
            Some(node.password.clone())
        } else {
            None
        };
        SshCall { args, password, judge }
    }

    /// Run a command; fails on non-zero exit.
    pub fn exec(&self, command: &str) -> (r: SshCall)
        ensures
            r.runs(self.spec_node(), command@, Judge::Success),
    {
        Self::run(&self.node, command, Judge::Success)
    }

    /// Run a command, whatever its exit code.
    pub fn exec_allow_fail(&self, command: &str) -> (r: SshCall)
        ensures
            r.runs(self.spec_node(), command@, Judge::AnyCode),
    {
        Self::run(&self.node, command, Judge::AnyCode)
    }

    /// Upload a string as a remote file using a heredoc over SSH.
    pub fn upload_str(&self, content: &str, remote: &str) -> (r: SshCall)
        ensures
            r.runs(
                self.spec_node(),
                upload_text(content@, remote@),
                Judge::Uploaded { remote: remote@ },
            ),
    {
        let command = upload_command(content, remote);
        Self::run(&self.node, command.as_str(), Judge::Uploaded { remote: remote.to_string() })
    }

    /// The arguments with which `scp` uploads a local file.
    pub fn upload(&self, local: &str, remote: &str) -> (r: Vec<String>)
        ensures
            texts(r@) == scp_args(self.spec_node()).push(local@).push(
                account(self.spec_node()) + ":"@ + remote@,
            ),
    {
        let mut args = Self::scp_base_args(&self.node);
        let ghost base = texts(args@);
        args.push(local.to_string());
        args.push(self.remote_path(remote));
        assert(texts(args@) == base.push(local@).push(
            account(self.spec_node()) + ":"@ + remote@,
        ));
        args
    }

    /// The arguments with which `scp` downloads a remote file.
    pub fn download(&self, remote: &str, local: &str) -> (r: Vec<String>)
        ensures
            texts(r@) == scp_args(self.spec_node()).push(
                account(self.spec_node()) + ":"@ + remote@,
            ).push(local@),
    {
        let mut args = Self::scp_base_args(&self.node);
        let ghost base = texts(args@);
        args.push(self.remote_path(remote));
        args.push(local.to_string());
        assert(texts(args@) == base.push(account(self.spec_node()) + ":"@ + remote@).push(local@));
        args
    }

    fn remote_path(&self, remote: &str) -> (r: String)
        ensures
            r@ == account(self.spec_node()) + ":"@ + remote@,
    {
        let mut r = self.node.user.clone();
        r.append("@");
        r.append(self.node.host.as_str());
        r.append(":");
        r.append(remote);
        r
    }

    /// Check if a file exists on the remote: the call's exit code is zero where
    /// it does.
    pub fn file_exists(&self, path: &str) -> (r: SshCall)
        ensures
            r.runs(self.spec_node(), file_test(path@), Judge::AnyCode),
    {
        self.exec_allow_fail(file_test_command(path).as_str())
    }

    /// Whether the file exists, once the outcome of
    /// [`SshClient::file_exists`] is known.
    pub fn file_found(output: &CommandOutput<String>) -> (r: bool)
        ensures
            r == (output.code == 0),
    {
        output.code == 0
    }
}

/// What the end of `scp` comes to. A failure is reported with all that it printed.
pub fn scp_finished(output: &ProcessOutput<String>) -> (r: Result<(), String>)
    ensures
        match r {
            Ok(_) => output.code == Some(0i32),
            Err(e) => output.code != Some(0i32) && e@ == "scp failed with exit code "@ + exit_text(
                output.code,
            ) + streams_text(output.stdout@, output.stderr@),
        },
{
    if succeeded(output.code) {
        return Ok(());
    }
    let mut e = "scp failed with exit code ".to_string();
    e.append(exit_text_of(output.code).as_str());
    e.append(streams(output.stdout.as_str(), output.stderr.as_str()).as_str());
    Err(e)
}

/// The batch file that prints the password when `ssh` asks for it.
pub fn askpass_script(password: &str) -> (r: String)
    ensures
        r@ == "@echo off\necho "@ + password@ + "\n"@,
{
    let mut r = "@echo off\necho ".to_string();
    r.append(password);
    r.append("\n");
    r
}

} // verus!
