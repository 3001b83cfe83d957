use pifrost::plan::{extract_token, Action, Progress, Reply, Step, TOKEN_ATTEMPTS};
use pifrost::ssh::CommandOutput;

fn text(s: &str) -> String {
    s.to_string()
}

fn ended(code: i32, stdout: &str) -> Reply<String> {
    Reply::Output(CommandOutput::new(text(stdout), text("err"), Some(code)))
}

fn show(p: &Progress) -> String {
    format!("{:?}", p.action())
}

#[test]
fn tokens_in_token_files() {
    assert_eq!(extract_token("K10abc::server:secret\n").as_deref(), Some("secret"));
    assert_eq!(extract_token("plain\n").as_deref(), Some("plain"));
    assert_eq!(extract_token("a::server: b ::server:c").as_deref(), Some("b"));
    assert_eq!(extract_token("a::server:").as_deref(), Some(""));
    assert_eq!(extract_token(" \n"), None);
}

#[test]
fn lines_and_pauses() {
    let mut p = Progress::new(vec![
        Step::Say(text("a")),
        Step::Sleep(3),
        Step::Announce(text("b")),
    ]);
    assert_eq!(show(&p), "Say(\"a\")");
    p.advance(Reply::Done);
    assert_eq!(show(&p), "Sleep(3)");
    p.advance(ended(0, ""));
    assert_eq!(show(&p), "Sleep(3)");
    p.advance(Reply::Done);
    assert_eq!(show(&p), "Announce(\"b\")");
    p.advance(Reply::Done);
    assert_eq!(show(&p), "Finished");
    p.advance(Reply::Done);
    assert_eq!(show(&p), "Finished");
}

#[test]
fn a_failed_command_ends_the_plan() {
    let mut p = Progress::new(vec![Step::Exec(text("false")), Step::Say(text("never"))]);
    p.advance(Reply::Done);
    assert_eq!(show(&p), "Run { node: 0, command: \"false\" }");
    p.advance(ended(3, ""));
    assert_eq!(show(&p), "Failed(\"Command exited with code 3:\\n  stderr: err\\n  stdout: \")");
    p.advance(ended(0, ""));
    assert!(matches!(p.action(), Action::Failed(_)));
}

#[test]
fn a_command_that_does_not_start_ends_the_plan() {
    let mut p = Progress::new(vec![Step::Attempt(text("x")), Step::Exec(text("y"))]);
    p.advance(Reply::NotStarted(text("no ssh")));
    assert_eq!(show(&p), "Run { node: 0, command: \"y\" }");
    p.advance(Reply::NotStarted(text("no ssh")));
    assert_eq!(show(&p), "Failed(\"no ssh\")");
}

#[test]
fn probes_skip_steps() {
    let steps = || {
        vec![
            Step::Probe { command: text("test"), wanted: false, skip: 2 },
            Step::Say(text("install")),
            Step::Jump(1),
            Step::Say(text("already there")),
            Step::Say(text("end")),
        ]
    };
    let mut absent = Progress::new(steps());
    absent.advance(ended(1, ""));
    assert_eq!(show(&absent), "Say(\"install\")");
    absent.advance(Reply::Done);
    absent.advance(Reply::Done);
    assert_eq!(show(&absent), "Say(\"end\")");
    let mut present = Progress::new(steps());
    present.advance(ended(0, ""));
    assert_eq!(show(&present), "Say(\"already there\")");
}

#[test]
fn connecting_changes_the_node() {
    let mut p = Progress::new(vec![
        Step::Connect { node: 2, user: text("root"), host: text("h") },
        Step::Exec(text("id")),
    ]);
    assert_eq!(show(&p), "Run { node: 2, command: \"echo connected\" }");
    p.advance(ended(0, "connected"));
    assert_eq!(show(&p), "Run { node: 2, command: \"id\" }");
    let mut refused =
        Progress::new(vec![Step::Connect { node: 2, user: text("root"), host: text("h") }]);
    refused.advance(ended(255, ""));
    assert_eq!(show(&refused), "Failed(\"Failed to connect to root@h\\nstdout: \\nstderr: err\")");
}

#[test]
fn uploads_checks_and_fetches() {
    let mut p = Progress::new(vec![Step::Upload { content: text("c"), remote: text("/tmp/f") }]);
    match p.action() {
        Action::Run { command, .. } => assert_eq!(
            command,
            "mkdir -p \"$(dirname '/tmp/f')\" && cat > '/tmp/f' << 'PIFROST_EOF'\nc\nPIFROST_EOF"
        ),
        other => panic!("{:?}", other),
    }
    p.advance(ended(1, ""));
    assert_eq!(show(&p), "Failed(\"Failed to upload to remote path /tmp/f\\nstdout: \\nstderr: err\")");
    let mut check = Progress::new(vec![Step::Check { command: text("t"), message: text("gone") }]);
    check.advance(ended(1, "o"));
    assert_eq!(show(&check), "Failed(\"gone\\nstdout: o\\nstderr: err\")");
    let mut fetch = Progress::new(vec![Step::Fetch { command: text("t"), message: text("m: ") }]);
    fetch.advance(ended(1, "o"));
    assert_eq!(show(&fetch), "Failed(\"m: o / err\")");
}

#[test]
fn what_is_kept_is_reported() {
    let mut p = Progress::new(vec![
        Step::Capture(text("cat a")),
        Step::Capture(text("cat b")),
        Step::Report { heading: text("second: "), slot: 1 },
        Step::Report { heading: text("third: "), slot: 2 },
    ]);
    p.advance(ended(0, "A"));
    p.advance(ended(1, "B"));
    assert_eq!(show(&p), "Say(\"second: B\")");
    p.advance(Reply::Done);
    assert_eq!(show(&p), "Say(\"third: \")");
}

#[test]
fn watched_commands() {
    let steps = || {
        vec![
            Step::Watch(text("start")),
            Step::Watch(text("is-active")),
            Step::SkipIfHealthy(1),
            Step::Abort(text("did not start")),
            Step::Say(text("started")),
        ]
    };
    let mut healthy = Progress::new(steps());
    healthy.advance(ended(0, ""));
    healthy.advance(ended(0, ""));
    healthy.advance(Reply::Done);
    assert_eq!(show(&healthy), "Say(\"started\")");
    let one = "\\nstdout: \\nstderr: err";
    for (a, b, times) in [(0, 3, 1), (1, 0, 1), (1, 3, 2)] {
        let mut sick = Progress::new(steps());
        sick.advance(ended(a, ""));
        sick.advance(ended(b, ""));
        sick.advance(Reply::Done);
        assert_eq!(show(&sick), "Pass");
        sick.advance(Reply::Done);
        assert_eq!(show(&sick), format!("Failed(\"did not start{}\")", one.repeat(times)));
    }
}

#[test]
fn a_token_is_waited_for() {
    let mut p = Progress::new(vec![Step::AwaitToken(text("cat token"))]);
    assert_eq!(show(&p), "Sleep(2)");
    p.advance(Reply::Done);
    assert_eq!(show(&p), "Run { node: 0, command: \"cat token\" }");
    p.advance(ended(1, ""));
    assert_eq!(show(&p), "Say(\"    waiting for RKE2 to generate node-token...\")");
    p.advance(Reply::Done);
    assert_eq!(show(&p), "Sleep(2)");
    p.advance(Reply::Done);
    p.advance(ended(0, "  \n"));
    assert_eq!(show(&p), "Sleep(2)");
    p.advance(Reply::Done);
    assert!(p.token().is_none());
    p.advance(ended(0, "K10::server:tok\n"));
    assert_eq!(show(&p), "Finished");
    assert_eq!(p.token().as_deref(), Some("tok"));
}

#[test]
fn waiting_for_a_token_ends() {
    let mut p = Progress::new(vec![Step::AwaitToken(text("cat token"))]);
    let mut asked = 0;
    loop {
        match p.action() {
            Action::Run { .. } => {
                asked += 1;
                p.advance(ended(1, ""));
            }
            Action::Failed(message) => {
                assert_eq!(message, "Timed out waiting for RKE2 node-token on first server");
                break;
            }
            _ => p.advance(Reply::Done),
        }
    }
    assert_eq!(asked, TOKEN_ATTEMPTS);
    assert_eq!(asked, 30);
    let mut q = Progress::new(vec![Step::AwaitToken(text("cat token"))]);
    q.advance(Reply::Done);
    q.advance(Reply::NotStarted(text("no ssh")));
    assert_eq!(show(&q), "Failed(\"Failed to read node-token: no ssh\")");
}
