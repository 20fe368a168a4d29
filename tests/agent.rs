use slarti::agent::{
    capabilities, dispatch, expand_tilde, list_dir_ok, malformed, request_failed, Action,
    AGENT_VERSION,
};
use slarti::facts::{build_static_config, build_sys_info, parse_uptime};
use slarti::listing::{list_page, page_by_folded, sort_by_folded, take_page};
use slarti::proto::{Capability, DirEntry, Response};
use slarti::response_json::encode_response;
use slarti::services::services_from;
use slarti::wire::Json;

fn s(x: &str) -> String {
    x.to_string()
}

fn obj(fields: Vec<(&str, Json)>) -> Json {
    Json::Object(fields.into_iter().map(|(k, v)| (k.to_string(), v)).collect())
}

fn file(name: &str, size: u64) -> DirEntry {
    DirEntry { name: s(name), path: format!("/home/u/{}", name), is_dir: false, size: Some(size) }
}

fn dir(name: &str) -> DirEntry {
    DirEntry { name: s(name), path: format!("/home/u/{}", name), is_dir: true, size: None }
}

fn names(v: &[DirEntry]) -> Vec<String> {
    v.iter().map(|e| e.name.clone()).collect()
}

#[test]
fn malformed_line_gets_error_with_id_zero() {
    match dispatch(Err(s("expected value at line 1 column 1")), None) {
        Action::Reply(Response::Error { id, message }) => {
            assert_eq!(id, 0);
            assert!(message.starts_with("invalid json: "));
        }
        _ => panic!("expected an error reply"),
    }
    let not_a_command = obj(vec![("cmd", Json::Str(s("reboot"))), ("id", Json::Number(5))]);
    match dispatch(Ok(not_a_command), None) {
        Action::Reply(Response::Error { id, .. }) => assert_eq!(id, 0),
        _ => panic!("expected an error reply"),
    }
    match malformed("x") {
        Response::Error { id, message } => {
            assert_eq!(id, 0);
            assert_eq!(message, "invalid json: x");
        }
        _ => panic!("expected an error"),
    }
}

#[test]
fn hello_is_answered_with_id_and_capabilities() {
    let hello = obj(vec![
        ("cmd", Json::Str(s("hello"))),
        ("id", Json::Number(42)),
        ("client_version", Json::Str(s("9.9.9"))),
    ]);
    match dispatch(Ok(hello), None) {
        Action::Reply(Response::HelloAck { id, agent_version, capabilities: caps }) => {
            assert_eq!(id, 42);
            assert_eq!(agent_version, AGENT_VERSION);
            assert_eq!(caps, capabilities());
            assert_eq!(caps, vec![Capability::SysInfo, Capability::StaticConfig, Capability::ServicesList]);
        }
        _ => panic!("expected HelloAck"),
    }
}

#[test]
fn gathering_commands_keep_their_id() {
    let cmd = |tag: &str, id: u64| obj(vec![("cmd", Json::Str(s(tag))), ("id", Json::Number(id))]);
    assert!(matches!(dispatch(Ok(cmd("sys_info", 3)), None), Action::SysInfo { id: 3 }));
    assert!(matches!(dispatch(Ok(cmd("static_config", 4)), None), Action::StaticConfig { id: 4 }));
    assert!(matches!(dispatch(Ok(cmd("services_list", 5)), None), Action::ServicesList { id: 5 }));
    let r = request_failed(9, "read_dir(\"/nope\")", "No such file or directory");
    match r {
        Response::Error { id, message } => {
            assert_eq!(id, 9);
            assert_eq!(message, "read_dir(\"/nope\"): No such file or directory");
        }
        _ => panic!("expected an error"),
    }
}

#[test]
fn tilde_expands_to_home() {
    assert_eq!(expand_tilde("~/src", Some("/home/u")), "/home/u/src");
    assert_eq!(expand_tilde("~/", Some("/home/u")), "/home/u/");
    assert_eq!(expand_tilde("~user/x", Some("/home/u")), "~user/x");
    assert_eq!(expand_tilde("~/src", None), "~/src");
    assert_eq!(expand_tilde("/etc", Some("/home/u")), "/etc");
}

#[test]
fn list_dir_scenario_home_with_three_entries() {
    let line = obj(vec![
        ("cmd", Json::Str(s("list_dir"))),
        ("id", Json::Number(7)),
        ("path", Json::Str(s("~/"))),
        ("max", Json::Number(2)),
        ("skip", Json::Number(0)),
    ]);
    let (id, dir_path, max, skip) = match dispatch(Ok(line), Some("/home/u")) {
        Action::ListDir { id, dir, max, skip } => (id, dir, max, skip),
        _ => panic!("expected a listing"),
    };
    assert_eq!(id, 7);
    assert_eq!(dir_path, "/home/u/");
    let raw = vec![file("a", 10), dir("b"), file("c", 20)];
    let resp = list_dir_ok(id, raw, max, skip);
    match &resp {
        Response::ListDirOk { id, entries, eof } => {
            assert_eq!(*id, 7);
            assert_eq!(names(entries), vec![s("b"), s("a")]);
            assert!(entries[0].is_dir);
            assert!(!entries[1].is_dir);
            assert_eq!(entries[1].size, Some(10));
            assert!(!eof);
        }
        _ => panic!("expected ListDirOk"),
    }
    match encode_response(&resp) {
        Json::Object(f) => {
            assert_eq!(f[0].0, "type");
            assert!(matches!(&f[0].1, Json::Str(t) if t == "list_dir_ok"));
        }
        _ => panic!("expected an object"),
    }
}

#[test]
fn listing_is_directories_first_then_case_insensitive() {
    let raw = vec![file("b", 1), file("B2", 1), dir("z"), file("a", 1), dir("Y")];
    let (p, eof) = list_page(raw, None, None);
    assert_eq!(names(&p), vec![s("Y"), s("z"), s("a"), s("b"), s("B2")]);
    assert!(eof);
    let (p, _) = list_page(vec![file("B", 1), file("a", 1)], None, None);
    assert_eq!(names(&p), vec![s("a"), s("B")]);
}

#[test]
fn equal_folded_names_keep_their_order() {
    let raw = vec![file("Readme", 1), file("README", 2), file("readme", 3)];
    let (p, _) = list_page(raw, None, None);
    let sizes: Vec<Option<u64>> = p.iter().map(|e| e.size).collect();
    assert_eq!(sizes, vec![Some(1), Some(2), Some(3)]);
}

#[test]
fn pages_concatenate_to_the_whole_listing() {
    let raw = || vec![file("e", 1), dir("d"), file("C", 1), file("b", 1), dir("A"), file("f", 1), file("g", 1)];
    let (whole, eof) = list_page(raw(), Some(7), Some(0));
    assert!(eof);
    let mut collected = Vec::new();
    let mut skip = 0usize;
    let mut pages = 0;
    loop {
        let (p, eof) = list_page(raw(), Some(3), Some(skip));
        pages += 1;
        skip += p.len();
        collected.extend(p);
        if eof {
            break;
        }
        assert!(skip < 7);
    }
    assert_eq!(pages, 3);
    assert_eq!(names(&collected), names(&whole));
    assert_eq!(names(&whole), vec![s("A"), s("d"), s("b"), s("C"), s("e"), s("f"), s("g")]);
}

#[test]
fn page_size_defaults_and_is_capped() {
    let many: Vec<DirEntry> = (0..10_005).map(|i| file(&format!("f{:05}", i), 0)).collect();
    let (p, eof) = take_page(many.clone(), 0, 10_000);
    assert_eq!(p.len(), 10_000);
    assert!(!eof);
    let folded: Vec<String> = many.iter().map(|e| e.name.to_lowercase()).collect();
    let (p, eof) = page_by_folded(many.clone(), folded.clone(), Some(50_000), None);
    assert_eq!(p.len(), 10_000);
    assert!(!eof);
    let (p, eof) = page_by_folded(many, folded, None, Some(9_000));
    assert_eq!(p.len(), 1_005);
    assert!(eof);
}

#[test]
fn skip_past_the_end_gives_an_empty_last_page() {
    let (p, eof) = list_page(vec![file("a", 1)], Some(5), Some(4));
    assert!(p.is_empty());
    assert!(eof);
    let (p, eof) = take_page(vec![], 0, 0);
    assert!(p.is_empty());
    assert!(eof);
}

#[test]
fn sort_uses_the_given_folded_names() {
    let entries = vec![file("x", 1), file("y", 2)];
    let folded = vec![s("2"), s("1")];
    assert_eq!(names(&sort_by_folded(entries, folded)), vec![s("y"), s("x")]);
}

#[test]
fn sys_info_uses_sources_and_fallbacks() {
    let info = build_sys_info(
        s("linux"),
        s("x86_64"),
        Some(s("6.1.0-18-amd64\n")),
        Some(s("3600.52 7000.11\n")),
        Some(s("  box\n")),
        Some(s("ignored")),
    );
    assert_eq!(info.os, "linux");
    assert_eq!(info.arch, "x86_64");
    assert_eq!(info.kernel, "6.1.0-18-amd64");
    assert_eq!(info.uptime_secs, 3600);
    assert_eq!(info.hostname, "box");
    let info = build_sys_info(s("linux"), s("arm"), None, None, None, Some(s("envhost")));
    assert_eq!(info.kernel, "unknown");
    assert_eq!(info.uptime_secs, 0);
    assert_eq!(info.hostname, "envhost");
    let info = build_sys_info(s("linux"), s("arm"), None, None, None, None);
    assert_eq!(info.hostname, "unknown");
}

#[test]
fn uptime_takes_whole_seconds() {
    assert_eq!(parse_uptime("12.99 1.0"), 12);
    assert_eq!(parse_uptime("42"), 42);
    assert_eq!(parse_uptime("7."), 7);
    assert_eq!(parse_uptime("x 1"), 0);
    assert_eq!(parse_uptime("1.2.3"), 0);
    assert_eq!(parse_uptime(""), 0);
}

#[test]
fn static_config_counts_processors_and_memory() {
    let cpuinfo = "processor\t: 0\nmodel name\t: X\n\nprocessor\t: 1\nflags\t: fpu\n";
    let meminfo = "MemFree:  100 kB\nMemTotal:       16384 kB\nMemTotal: 1 kB\n";
    let c = build_static_config(Some(s("NAME=Debian\n")), Some(s(cpuinfo)), Some(s(meminfo)));
    assert_eq!(c.os_release, Some(s("NAME=Debian\n")));
    assert_eq!(c.cpu_count, 2);
    assert_eq!(c.mem_total_bytes, 16384 * 1024);
    let c = build_static_config(None, None, Some(s("MemTotal: lots kB\n")));
    assert_eq!(c.os_release, None);
    assert_eq!(c.cpu_count, 0);
    assert_eq!(c.mem_total_bytes, 0);
    let huge = format!("MemTotal: {} kB\n", u64::MAX / 1024 + 1);
    assert_eq!(build_static_config(None, None, Some(huge)).mem_total_bytes, 0);
}

#[test]
fn services_join_units_with_unit_files() {
    let unit_files = "ssh.service enabled enabled\ncron.service disabled enabled\nodd.service static -\nssh.service enabled-runtime x\n";
    let units = "  ssh.service loaded active running OpenBSD Secure Shell server\n\ncron.service loaded inactive dead\nodd.service loaded active\nlone.service\n";
    let v = services_from(Some(s(unit_files)), Some(s(units)));
    assert_eq!(v.len(), 4);
    assert_eq!(v[0].name, "ssh.service");
    assert_eq!(v[0].active_state, "active");
    assert_eq!(v[0].sub_state, "running");
    assert_eq!(v[0].description, Some(s("OpenBSD Secure Shell server")));
    assert_eq!(v[0].enabled, Some(true));
    assert_eq!(v[1].enabled, Some(false));
    assert_eq!(v[1].description, None);
    assert_eq!(v[2].sub_state, "unknown");
    assert_eq!(v[2].enabled, None);
    assert_eq!(v[3].active_state, "unknown");
    let v = services_from(None, Some(s(units)));
    assert_eq!(v[0].enabled, None);
    assert!(services_from(Some(s(unit_files)), None).is_empty());
}
