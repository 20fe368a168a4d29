use slarti::deploy::{
    quoted_command, remote_dir, remote_path, remote_shell_args, uid_is_root, upload_destination,
    DeployError, DeployStep, Deployment,
};
use slarti::probe::{agent_args, classify_probe, needs_shell, version_line};
use slarti::proto::{Capability, Response};
use slarti::session::{Session, SessionError, SessionState, HELLO_ID};

fn s(x: &str) -> String {
    x.to_string()
}

#[test]
fn missing_agent_is_absent_not_an_error() {
    let st = classify_probe("/opt/none/slarti-remote", false, Some(127), s(""), s("sh: 1: /opt/none/slarti-remote: not found\n"))
        .unwrap();
    assert!(!st.present);
    assert!(!st.can_run);
    assert_eq!(st.version, None);
    assert_eq!(st.remote_path, "/opt/none/slarti-remote");
    let st = classify_probe("/x", false, Some(1), s(""), s("bash: /x: Permission denied")).unwrap();
    assert!(!st.present);
    let st = classify_probe("/x", false, Some(126), s(""), s("")).unwrap();
    assert!(!st.can_run);
}

#[test]
fn agent_printing_version_is_present() {
    let st = classify_probe("/x", true, Some(0), s("1.2.3\n"), s("")).unwrap();
    assert!(st.present);
    assert!(st.can_run);
    assert_eq!(st.version, Some(s("1.2.3")));
    let st = classify_probe("/x", true, Some(0), s("\n  \n  0.4.0  \r\nmore\n"), s("")).unwrap();
    assert_eq!(st.version, Some(s("0.4.0")));
    let st = classify_probe("/x", true, Some(0), s(" \n"), s("")).unwrap();
    assert!(!st.present);
    assert!(st.can_run);
    assert_eq!(version_line("a\nb"), Some(s("a")));
}

#[test]
fn ssh_login_failure_is_an_error_not_a_missing_agent() {
    let f = classify_probe("/x", false, Some(255), s(""), s("user@host: Permission denied (publickey).\r\n"))
        .unwrap_err();
    assert_eq!(f.exit_code, Some(255));
    let f = classify_probe("/x", false, Some(255), s(""), s("ssh: Could not resolve hostname h: Name or service not known"))
        .unwrap_err();
    assert_eq!(f.exit_code, Some(255));
}

#[test]
fn connection_failure_is_an_error() {
    let f = classify_probe("/x", false, Some(255), s(""), s("ssh: connect to host h port 22: Connection refused"))
        .unwrap_err();
    assert_eq!(f.exit_code, Some(255));
    assert!(f.stderr.contains("Connection refused"));
}

#[test]
fn ssh_arguments_for_the_agent() {
    assert!(needs_shell("~/.local/bin/a"));
    assert!(needs_shell("$HOME/a"));
    assert!(!needs_shell("/usr/bin/a"));
    let a = agent_args("me@host", "/usr/bin/a", "--version", 3);
    assert_eq!(
        a,
        vec![
            "-o", "BatchMode=yes", "-o", "StrictHostKeyChecking=accept-new", "-o", "ConnectTimeout=3",
            "-o", "ConnectionAttempts=1", "-o", "Compression=yes", "-T", "me@host", "--", "/usr/bin/a",
            "--version",
        ]
    );
    let a = agent_args("h", "$HOME/a", "--stdio", 10);
    assert_eq!(a[5], "ConnectTimeout=10");
    assert_eq!(&a[a.len() - 3..], &[s("sh"), s("-c"), s("$HOME/a --stdio")]);
}

#[test]
fn install_paths_depend_on_privilege() {
    assert_eq!(remote_dir(true, "0.1.0"), "/usr/local/lib/slarti/agent/0.1.0");
    assert_eq!(remote_dir(false, "0.1.0"), "$HOME/.local/share/slarti/agent/0.1.0");
    assert_eq!(remote_path(true, "2.0"), "/usr/local/lib/slarti/agent/2.0/slarti-remote");
    assert_eq!(upload_destination("h", "/p"), "h:/p");
    assert_eq!(quoted_command("mkdir -p", "/d"), "mkdir -p \"/d\"");
    assert_eq!(uid_is_root(true, "0\n"), Some(true));
    assert_eq!(uid_is_root(true, "1000\n"), Some(false));
    assert_eq!(uid_is_root(false, "0"), None);
    assert_eq!(uid_is_root(false, ""), None);
    let a = remote_shell_args("h", s("id -u"), 5, true);
    assert_eq!(a[0], "-vvv");
    assert_eq!(&a[a.len() - 3..], &[s("sh"), s("-lc"), s("id -u")]);
    assert_eq!(remote_shell_args("h", s("x"), 5, false).len(), a.len() - 1);
}

fn run(is_root: bool, outcomes: &[bool]) -> (Deployment, DeployStep) {
    let mut d = Deployment::start(is_root, "0.1.0");
    let mut last = d.step;
    for ok in outcomes {
        last = d.advance(*ok);
    }
    (d, last)
}

#[test]
fn deploying_twice_gives_the_same_path() {
    let (first, step) = run(false, &[true, true]);
    assert_eq!(step, DeployStep::Done);
    let (second, step) = run(false, &[true, false, true, true]);
    assert_eq!(step, DeployStep::Done);
    let a = first.outcome().unwrap().unwrap();
    let b = second.outcome().unwrap().unwrap();
    assert_eq!(a.remote_path, b.remote_path);
    assert_eq!(a.remote_path, "$HOME/.local/share/slarti/agent/0.1.0/slarti-remote");
    assert!(a.used_rsync);
    assert!(!b.used_rsync);
}

#[test]
fn deployment_failures_are_reported() {
    assert_eq!(run(true, &[false]).1, DeployStep::Failed(DeployError::MakeDirFailed));
    assert_eq!(run(true, &[true, false, false]).1, DeployStep::Failed(DeployError::UploadFailed));
    assert_eq!(run(true, &[true, false, true, false]).1, DeployStep::Failed(DeployError::ChmodFailed));
    let (d, _) = run(true, &[true, false, true, false, true]);
    assert!(matches!(d.outcome(), Some(Err(DeployError::ChmodFailed))));
    let (d, step) = run(true, &[true]);
    assert_eq!(step, DeployStep::Rsync);
    assert!(d.outcome().is_none());
}

#[test]
fn handshake_accepts_only_matching_hello_ack() {
    let mut sess = Session::new();
    sess.hello_sent();
    assert_eq!(sess.state, SessionState::Handshaking);
    let stale = Response::HelloAck { id: 99, agent_version: s("1"), capabilities: vec![] };
    assert_eq!(sess.hello_answer(stale).unwrap_err(), SessionError::Unexpected);
    let refused = Response::Error { id: HELLO_ID, message: s("too old") };
    assert_eq!(sess.hello_answer(refused).unwrap_err(), SessionError::Refused(s("too old")));
    let other = Response::Error { id: 0, message: s("invalid json") };
    assert_eq!(sess.hello_answer(other).unwrap_err(), SessionError::Unexpected);
    let ack = Response::HelloAck { id: HELLO_ID, agent_version: s("0.1.0"), capabilities: vec![Capability::SysInfo] };
    let a = sess.hello_answer(ack).unwrap();
    assert_eq!(a.agent_version, "0.1.0");
    assert_eq!(a.capabilities, vec![Capability::SysInfo]);
    assert_eq!(sess.state, SessionState::Ready);
}

#[test]
fn terminated_session_refuses_requests() {
    let mut sess = Session::new();
    assert!(sess.begin().is_ok());
    assert_eq!(sess.take_line("{\"type\":\"error\"}\n").unwrap(), "{\"type\":\"error\"}");
    sess.terminate();
    assert!(sess.is_closed());
    assert_eq!(sess.begin(), Err(SessionError::Closed));
    assert_eq!(sess.take_line("{}\n"), Err(SessionError::Closed));
}

#[test]
fn lost_transport_closes_the_session() {
    let mut sess = Session::new();
    sess.hello_sent();
    sess.transport_lost();
    assert!(sess.is_closed());
    assert_eq!(sess.begin(), Err(SessionError::Closed));
    assert_eq!(sess.take_line("{\"type\":\"error\"}\n"), Err(SessionError::Closed));
}

#[test]
fn end_of_stream_closes_the_session() {
    let mut sess = Session::new();
    assert_eq!(sess.take_line(""), Err(SessionError::Closed));
    assert!(sess.is_closed());
    let mut sess = Session::new();
    assert_eq!(sess.take_line("{\"id\":1"), Err(SessionError::Truncated));
    assert_eq!(sess.begin(), Err(SessionError::Closed));
}

