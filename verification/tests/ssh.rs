use pifrost::config::NodeInfo;
use pifrost::process::ProcessOutput;
use pifrost::ssh::{
    askpass_script, scp_finished, CommandOutput, Judge, SshClient, SshError, CONNECT_COMMAND,
};

fn by_key() -> NodeInfo {
    NodeInfo {
        hostname: String::new(),
        host: "10.0.0.1".to_string(),
        port: 22,
        user: "pi".to_string(),
        auth: "key".to_string(),
        key_path: "/home/pi/.ssh/id_rsa".to_string(),
        password: String::new(),
    }
}

fn by_password() -> NodeInfo {
    NodeInfo {
        auth: "password".to_string(),
        key_path: String::new(),
        password: "secret".to_string(),
        ..by_key()
    }
}

fn output(code: Option<i32>, stderr: &str) -> CommandOutput<String> {
    CommandOutput::new("out".to_string(), stderr.to_string(), code)
}

fn client(node: &NodeInfo) -> SshClient {
    SshClient::connected(node, output(Some(0), "")).unwrap()
}

#[test]
fn arguments_for_a_key() {
    assert_eq!(
        SshClient::base_args(&by_key()),
        vec![
            "-o",
            "StrictHostKeyChecking=accept-new",
            "-o",
            "UserKnownHostsFile=NUL",
            "-o",
            "ConnectTimeout=10",
            "pi@10.0.0.1",
            "-i",
            "/home/pi/.ssh/id_rsa",
        ]
    );
}

#[test]
fn arguments_without_a_key() {
    let args = SshClient::base_args(&by_password());
    assert_eq!(args.last().unwrap(), "pi@10.0.0.1");
    assert_eq!(args.len(), 7);
    let mut no_path = by_key();
    no_path.key_path = String::new();
    assert_eq!(SshClient::base_args(&no_path).len(), 7);
}

#[test]
fn trying_out_a_node() {
    let call = SshClient::connect(&by_key());
    assert_eq!(call.args.last().unwrap(), CONNECT_COMMAND);
    assert!(call.password.is_none());
    assert!(call.settle(output(Some(0), "")).is_ok());
    let refused = SshClient::connect(&by_password());
    assert_eq!(refused.password.as_deref(), Some("secret"));
    let e = refused.settle(output(Some(255), "denied")).unwrap_err();
    assert_eq!(
        e.message(),
        "Failed to connect to pi@10.0.0.1\nstdout: out\nstderr: denied"
    );
}

#[test]
fn a_client_needs_a_connection() {
    let e = SshClient::connected(&by_key(), output(Some(255), "")).unwrap_err();
    assert!(matches!(e, SshError::Connect { .. }));
    assert_eq!(e.message(), "Failed to connect to pi@10.0.0.1\nstdout: out\nstderr: ");
}

#[test]
fn a_command_must_succeed() {
    let call = client(&by_key()).exec("ls /");
    assert_eq!(call.args.last().unwrap(), "ls /");
    assert_eq!(call.args.len(), 10);
    let e = call.settle(output(Some(2), " no such file \n")).unwrap_err();
    assert_eq!(e.message(), "Command exited with code 2:\n  stderr: no such file\n  stdout: out");
    let ok = client(&by_key()).exec("true").settle(output(Some(0), "warn")).unwrap();
    assert_eq!(ok.stdout, "out");
    assert_eq!(ok.stderr, "warn");
}

#[test]
fn a_command_that_a_signal_ended() {
    let o = output(None, "killed");
    assert_eq!(o.code, -1);
    let e = client(&by_key()).exec("x").settle(o).unwrap_err();
    assert_eq!(e.message(), "Command exited with code -1:\n  stderr: killed\n  stdout: out");
}

#[test]
fn a_command_may_fail() {
    let call = client(&by_key()).exec_allow_fail("false");
    assert!(matches!(call.judge, Judge::AnyCode));
    let o = call.settle(output(Some(1), "e")).unwrap();
    assert_eq!(o.code, 1);
    assert_eq!(o.stderr, "e");
}

#[test]
fn uploading_a_text() {
    let call = client(&by_key()).upload_str("a=1\n", "/tmp/x.conf");
    assert_eq!(
        call.args.last().unwrap(),
        "mkdir -p \"$(dirname '/tmp/x.conf')\" && cat > '/tmp/x.conf' << 'PIFROST_EOF'\na=1\n\nPIFROST_EOF"
    );
    let e = call.settle(output(Some(1), "")).unwrap_err();
    assert_eq!(e.message(), "Failed to upload to remote path /tmp/x.conf\nstdout: out\nstderr: ");
}

#[test]
fn copying_files() {
    let c = client(&by_key());
    assert_eq!(
        c.upload("a.txt", "/tmp/a.txt"),
        vec![
            "-o",
            "StrictHostKeyChecking=accept-new",
            "-o",
            "UserKnownHostsFile=NUL",
            "-i",
            "/home/pi/.ssh/id_rsa",
            "a.txt",
            "pi@10.0.0.1:/tmp/a.txt",
        ]
    );
    let down = client(&by_password()).download("/tmp/a.txt", "a.txt");
    assert_eq!(down[4..], ["pi@10.0.0.1:/tmp/a.txt".to_string(), "a.txt".to_string()]);
    let scp = |code| {
        scp_finished(&ProcessOutput {
            stdout: " a\n".to_string(),
            stderr: "lost connection\n".to_string(),
            code,
        })
    };
    assert_eq!(scp(Some(0)), Ok(()));
    assert_eq!(
        scp(Some(1)),
        Err("scp failed with exit code Some(1)\nstdout: a\nstderr: lost connection".to_string())
    );
    assert!(scp(None).unwrap_err().starts_with("scp failed with exit code None\n"));
}

#[test]
fn looking_for_a_file() {
    let call = client(&by_key()).file_exists("/usr/local/bin/rke2");
    assert_eq!(call.args.last().unwrap(), "test -f '/usr/local/bin/rke2'");
    let found = call.settle(output(Some(0), "")).unwrap();
    assert!(SshClient::file_found(&found));
    assert!(!SshClient::file_found(&output(Some(1), "")));
}

#[test]
fn passwords_are_printed_by_a_batch_file() {
    assert_eq!(askpass_script("p w"), "@echo off\necho p w\n");
}
