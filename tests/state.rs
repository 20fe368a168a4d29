use slarti::state::{ssh_timeout_secs, state_file_name, AgentDeploymentState};

#[test]
fn check_record_starts_unseen() {
    let st = AgentDeploymentState::checking("web", "$HOME/.local/share/slarti/agent/0.1.0/slarti-remote");
    assert_eq!(st.alias, "web");
    assert_eq!(st.remote_path.as_deref(), Some("$HOME/.local/share/slarti/agent/0.1.0/slarti-remote"));
    assert!(!st.last_seen_ok);
    assert_eq!(st.status_text(), "not present or incompatible");
}

#[test]
fn hello_marks_record_connected() {
    let mut st = AgentDeploymentState::checking("web", "/p");
    st.record_hello("0.1.0".to_string());
    assert!(st.last_seen_ok);
    assert_eq!(st.last_deployed_version.as_deref(), Some("0.1.0"));
    assert_eq!(st.status_text(), "connected v0.1.0");
    assert_eq!(st.remote_path.as_deref(), Some("/p"));
    st.last_deployed_version = None;
    assert_eq!(st.status_text(), "connected");
}

#[test]
fn state_file_is_named_after_alias() {
    assert_eq!(state_file_name("db1"), "db1.json");
}

#[test]
fn timeout_prefers_host_then_global_then_default() {
    assert_eq!(ssh_timeout_secs(Some("10"), Some("20")), 10);
    assert_eq!(ssh_timeout_secs(Some("ten"), Some("20")), 20);
    assert_eq!(ssh_timeout_secs(None, Some("+7")), 7);
    assert_eq!(ssh_timeout_secs(None, Some("-7")), 3);
    assert_eq!(ssh_timeout_secs(None, None), 3);
    assert_eq!(ssh_timeout_secs(Some("18446744073709551616"), None), 3);
}
