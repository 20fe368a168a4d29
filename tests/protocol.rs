use slarti::proto::{Capability, Command, DirEntry, Response, ServiceInfo, StaticConfig, SysInfo};
use slarti::response_json::{decode_response, encode_response};
use slarti::wire::{decode_command, encode_command, frame_line, Json};

fn s(x: &str) -> String {
    x.to_string()
}

fn obj(fields: Vec<(&str, Json)>) -> Json {
    Json::Object(fields.into_iter().map(|(k, v)| (k.to_string(), v)).collect())
}

fn field<'a>(j: &'a Json, key: &str) -> Option<&'a Json> {
    match j {
        Json::Object(f) => f.iter().find(|(k, _)| k == key).map(|(_, v)| v),
        _ => None,
    }
}

fn all_commands() -> Vec<Command> {
    vec![
        Command::Hello { id: 1, client_version: s("0.1.0") },
        Command::SysInfo { id: 2 },
        Command::StaticConfig { id: 3 },
        Command::ServicesList { id: 4 },
        Command::ListDir { id: 5, path: s("~/src"), max: Some(10), skip: None },
        Command::ListDir { id: u64::MAX, path: s("line\nbreak"), max: None, skip: Some(3) },
    ]
}

#[test]
fn every_command_round_trips() {
    for c in all_commands() {
        let j = encode_command(&c);
        assert_eq!(decode_command(&j), Ok(c.clone()));
    }
}

#[test]
fn encoded_command_is_tagged_snake_case() {
    let j = encode_command(&Command::ListDir { id: 7, path: s("~/"), max: Some(2), skip: None });
    assert!(matches!(field(&j, "cmd"), Some(Json::Str(t)) if t == "list_dir"));
    assert!(matches!(field(&j, "id"), Some(Json::Number(7))));
    assert!(matches!(field(&j, "max"), Some(Json::Number(2))));
    assert!(matches!(field(&j, "skip"), Some(Json::Null)));
    let j = encode_command(&Command::SysInfo { id: 9 });
    assert!(matches!(field(&j, "cmd"), Some(Json::Str(t)) if t == "sys_info"));
}

#[test]
fn list_dir_optional_fields_may_be_absent() {
    let j = obj(vec![
        ("cmd", Json::Str(s("list_dir"))),
        ("id", Json::Number(7)),
        ("path", Json::Str(s("/tmp"))),
    ]);
    assert_eq!(
        decode_command(&j),
        Ok(Command::ListDir { id: 7, path: s("/tmp"), max: None, skip: None })
    );
}

#[test]
fn unknown_keys_are_ignored() {
    let j = obj(vec![
        ("extra", Json::Bool(true)),
        ("cmd", Json::Str(s("static_config"))),
        ("id", Json::Number(11)),
    ]);
    assert_eq!(decode_command(&j), Ok(Command::StaticConfig { id: 11 }));
}

#[test]
fn malformed_commands_are_rejected() {
    let cases = vec![
        Json::Null,
        Json::Array(vec![]),
        obj(vec![("id", Json::Number(1))]),
        obj(vec![("cmd", Json::Str(s("sys_info")))]),
        obj(vec![("cmd", Json::Str(s("reboot"))), ("id", Json::Number(1))]),
        obj(vec![("cmd", Json::Str(s("hello"))), ("id", Json::Number(1))]),
        obj(vec![("cmd", Json::Str(s("sys_info"))), ("id", Json::OtherNumber)]),
        obj(vec![("cmd", Json::Str(s("sys_info"))), ("id", Json::Str(s("1")))]),
        obj(vec![
            ("cmd", Json::Str(s("list_dir"))),
            ("id", Json::Number(1)),
            ("path", Json::Str(s("/"))),
            ("max", Json::Str(s("2"))),
        ]),
        obj(vec![("cmd", Json::Str(s("list_dir"))), ("id", Json::Number(1))]),
    ];
    for j in cases {
        assert!(decode_command(&j).is_err());
    }
}

fn sample_responses() -> Vec<Response> {
    vec![
        Response::HelloAck {
            id: 1,
            agent_version: s("0.1.0"),
            capabilities: vec![Capability::SysInfo, Capability::ProcessesSummary],
        },
        Response::SysInfoOk {
            id: 2,
            info: SysInfo {
                os: s("linux"),
                kernel: s("6.1.0"),
                arch: s("x86_64"),
                uptime_secs: 1234,
                hostname: s("box"),
            },
        },
        Response::StaticConfigOk {
            id: 3,
            config: StaticConfig { os_release: None, cpu_count: 8, mem_total_bytes: 1 << 33 },
        },
        Response::ServicesListOk {
            id: 4,
            services: vec![ServiceInfo {
                name: s("ssh.service"),
                description: Some(s("OpenBSD Secure Shell server")),
                active_state: s("active"),
                sub_state: s("running"),
                enabled: Some(true),
            }],
        },
        Response::ListDirOk {
            id: 5,
            entries: vec![DirEntry { name: s("a"), path: s("/a"), is_dir: false, size: Some(3) }],
            eof: true,
        },
        Response::Error { id: 0, message: s("invalid json: eof") },
    ]
}

#[test]
fn every_response_round_trips() {
    for r in sample_responses() {
        let j = encode_response(&r);
        assert_eq!(decode_response(&j), Ok(r.clone()));
    }
}

#[test]
fn encoded_response_is_tagged_by_type() {
    let j = encode_response(&Response::Error { id: 4, message: s("boom") });
    assert!(matches!(field(&j, "type"), Some(Json::Str(t)) if t == "error"));
    assert!(matches!(field(&j, "id"), Some(Json::Number(4))));
    let j = encode_response(&sample_responses()[0]);
    match field(&j, "capabilities") {
        Some(Json::Array(items)) => {
            assert!(matches!(&items[0], Json::Str(t) if t == "sys_info"));
            assert!(matches!(&items[1], Json::Str(t) if t == "processes_summary"));
        }
        _ => panic!("capabilities missing"),
    }
}

#[test]
fn malformed_responses_are_rejected() {
    let bad_capability = obj(vec![
        ("type", Json::Str(s("hello_ack"))),
        ("id", Json::Number(1)),
        ("agent_version", Json::Str(s("1"))),
        ("capabilities", Json::Array(vec![Json::Str(s("teleport"))])),
    ]);
    assert!(decode_response(&bad_capability).is_err());
    let no_id = obj(vec![("type", Json::Str(s("error"))), ("message", Json::Str(s("x")))]);
    assert!(decode_response(&no_id).is_err());
    let big_cpu = obj(vec![
        ("type", Json::Str(s("static_config_ok"))),
        ("id", Json::Number(1)),
        (
            "config",
            obj(vec![
                ("cpu_count", Json::Number(1 << 40)),
                ("mem_total_bytes", Json::Number(0)),
            ]),
        ),
    ]);
    assert!(decode_response(&big_cpu).is_err());
}

#[test]
fn lines_are_framed_with_one_line_feed() {
    assert_eq!(frame_line("{\"id\":1}"), Some(s("{\"id\":1}\n")));
    assert_eq!(frame_line(""), Some(s("\n")));
    assert_eq!(frame_line("{\"a\":\"x\ny\"}"), None);
    assert_eq!(frame_line("a\rb"), None);
    assert_eq!(frame_line("{\"a\":\"x\\ny\"}"), Some(s("{\"a\":\"x\\ny\"}\n")));
}
