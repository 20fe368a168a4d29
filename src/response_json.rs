//! The JSON form of responses.

use vstd::prelude::*;
use vstd::string::*;
use crate::proto::{Capability, DirEntry, Response, ServiceInfo, StaticConfig, SysInfo};
use crate::text::string_of;
use crate::wire::{field, field_error, get_field, keys, lemma_field_at, str_of, u64_of, Json};

verus! {

pub open spec fn bool_of(j: Option<Json>) -> Option<bool> {
    match j {
        Some(Json::Bool(b)) => Some(b),
        _ => None,
    }
}

/// An optional string: `null` or absent for `None`.
pub open spec fn opt_str_is(j: Option<Json>, v: Option<String>) -> bool {
    match v {
        None => j is None || j == Some(Json::Null),
        Some(s) => str_of(j) == Some(s@),
    }
}

pub open spec fn opt_u64_is(j: Option<Json>, v: Option<u64>) -> bool {
    match v {
        None => j is None || j == Some(Json::Null),
        Some(n) => u64_of(j) == Some(n),
    }
}

pub open spec fn opt_bool_is(j: Option<Json>, v: Option<bool>) -> bool {
    match v {
        None => j is None || j == Some(Json::Null),
        Some(b) => bool_of(j) == Some(b),
    }
}

pub open spec fn fields_of(j: Json) -> Seq<(String, Json)> {
    match j {
        Json::Object(f) => f@,
        _ => Seq::empty(),
    }
}

pub open spec fn items_of(j: Option<Json>) -> Option<Seq<Json>> {
    match j {
        Some(Json::Array(v)) => Some(v@),
        _ => None,
    }
}

/// The snake-case name of a capability.
pub open spec fn capability_name(c: Capability) -> Seq<char> {
    match c {
        Capability::SysInfo => "sys_info"@,
        Capability::StaticConfig => "static_config"@,
        Capability::ServicesList => "services_list"@,
        Capability::ContainersList => "containers_list"@,
        Capability::NetListeners => "net_listeners"@,
        Capability::ProcessesSummary => "processes_summary"@,
    }
}

pub open spec fn dir_entry_json(j: Json, e: DirEntry) -> bool {
    let f = fields_of(j);
    &&& j is Object
    &&& str_of(field(f, "name"@)) == Some(e.name@)
    &&& str_of(field(f, "path"@)) == Some(e.path@)
    &&& bool_of(field(f, "is_dir"@)) == Some(e.is_dir)
    &&& opt_u64_is(field(f, "size"@), e.size)
}

pub open spec fn sys_info_json(j: Json, i: SysInfo) -> bool {
    let f = fields_of(j);
    &&& j is Object
    &&& str_of(field(f, "os"@)) == Some(i.os@)
    &&& str_of(field(f, "kernel"@)) == Some(i.kernel@)
    &&& str_of(field(f, "arch"@)) == Some(i.arch@)
    &&& u64_of(field(f, "uptime_secs"@)) == Some(i.uptime_secs)
    &&& str_of(field(f, "hostname"@)) == Some(i.hostname@)
}

pub open spec fn static_config_json(j: Json, c: StaticConfig) -> bool {
    let f = fields_of(j);
    &&& j is Object
    &&& opt_str_is(field(f, "os_release"@), c.os_release)
    &&& u64_of(field(f, "cpu_count"@)) == Some(c.cpu_count as u64)
    &&& u64_of(field(f, "mem_total_bytes"@)) == Some(c.mem_total_bytes)
}

pub open spec fn service_json(j: Json, s: ServiceInfo) -> bool {
    let f = fields_of(j);
    &&& j is Object
    &&& str_of(field(f, "name"@)) == Some(s.name@)
    &&& opt_str_is(field(f, "description"@), s.description)
    &&& str_of(field(f, "active_state"@)) == Some(s.active_state@)
    &&& str_of(field(f, "sub_state"@)) == Some(s.sub_state@)
    &&& opt_bool_is(field(f, "enabled"@), s.enabled)
}

pub open spec fn capabilities_json(items: Seq<Json>, v: Seq<Capability>) -> bool {
    items.len() == v.len() && forall|k: int|
        0 <= k < items.len() ==> str_of(Some(#[trigger] items[k])) == Some(capability_name(v[k]))
}

pub open spec fn services_json(items: Seq<Json>, v: Seq<ServiceInfo>) -> bool {
    items.len() == v.len() && forall|k: int| 0 <= k < items.len() ==> service_json(#[trigger] items[k], v[k])
}

pub open spec fn entries_json(items: Seq<Json>, v: Seq<DirEntry>) -> bool {
    items.len() == v.len() && forall|k: int| 0 <= k < items.len() ==> dir_entry_json(#[trigger] items[k], v[k])
}

/// `j` is the JSON form of the response `r`: an object whose `"type"` names
/// the variant in snake case, with the variant's fields beside it.
pub open spec fn response_json(j: Json, r: Response) -> bool {
    let f = fields_of(j);
    &&& j is Object
    &&& u64_of(field(f, "id"@)) == Some(r.spec_id())
    &&& match r {
        Response::HelloAck { agent_version, capabilities, .. } => {
            &&& str_of(field(f, "type"@)) == Some("hello_ack"@)
            &&& str_of(field(f, "agent_version"@)) == Some(agent_version@)
            &&& items_of(field(f, "capabilities"@)) matches Some(items) && capabilities_json(
                items,
                capabilities@,
            )
        },
        Response::SysInfoOk { info, .. } => {
            &&& str_of(field(f, "type"@)) == Some("sys_info_ok"@)
            &&& field(f, "info"@) matches Some(v) && sys_info_json(v, info)
        },
        Response::StaticConfigOk { config, .. } => {
            &&& str_of(field(f, "type"@)) == Some("static_config_ok"@)
            &&& field(f, "config"@) matches Some(v) && static_config_json(v, config)
        },
        Response::ServicesListOk { services, .. } => {
            &&& str_of(field(f, "type"@)) == Some("services_list_ok"@)
            &&& items_of(field(f, "services"@)) matches Some(items) && services_json(items, services@)
        },
        Response::ListDirOk { entries, eof, .. } => {
            &&& str_of(field(f, "type"@)) == Some("list_dir_ok"@)
            &&& items_of(field(f, "entries"@)) matches Some(items) && entries_json(items, entries@)
            &&& bool_of(field(f, "eof"@)) == Some(eof)
        },
        Response::Error { message, .. } => {
            &&& str_of(field(f, "type"@)) == Some("error"@)
            &&& str_of(field(f, "message"@)) == Some(message@)
        },
    }
}

/// The keys of a directory entry differ.
pub proof fn lemma_entry_keys_differ()
    ensures
        "name"@ != "path"@,
        "name"@ != "is_dir"@,
        "name"@ != "size"@,
        "path"@ != "is_dir"@,
        "path"@ != "size"@,
        "is_dir"@ != "size"@,
{
    reveal_strlit("name");
    reveal_strlit("path");
    reveal_strlit("is_dir");
    reveal_strlit("size");
    assert("name"@[0] != "path"@[0]);
    assert("name"@[0] != "is_dir"@[0]);
    assert("name"@[0] != "size"@[0]);
    assert("path"@[0] != "is_dir"@[0]);
    assert("path"@[0] != "size"@[0]);
    assert("is_dir"@[0] != "size"@[0]);
}

/// The keys of the system facts differ.
pub proof fn lemma_sys_info_keys_differ()
    ensures
        "os"@ != "kernel"@,
        "os"@ != "arch"@,
        "os"@ != "uptime_secs"@,
        "os"@ != "hostname"@,
        "kernel"@ != "arch"@,
        "kernel"@ != "uptime_secs"@,
        "kernel"@ != "hostname"@,
        "arch"@ != "uptime_secs"@,
        "arch"@ != "hostname"@,
        "uptime_secs"@ != "hostname"@,
{
    reveal_strlit("os");
    reveal_strlit("kernel");
    reveal_strlit("arch");
    reveal_strlit("uptime_secs");
    reveal_strlit("hostname");
    assert("os"@[0] != "kernel"@[0]);
    assert("os"@[0] != "arch"@[0]);
    assert("os"@[0] != "uptime_secs"@[0]);
    assert("os"@[0] != "hostname"@[0]);
    assert("kernel"@[0] != "arch"@[0]);
    assert("kernel"@[0] != "uptime_secs"@[0]);
    assert("kernel"@[0] != "hostname"@[0]);
    assert("arch"@[0] != "uptime_secs"@[0]);
    assert("arch"@[0] != "hostname"@[0]);
    assert("uptime_secs"@[0] != "hostname"@[0]);
}

/// The keys of the static configuration differ.
pub proof fn lemma_config_keys_differ()
    ensures
        "os_release"@ != "cpu_count"@,
        "os_release"@ != "mem_total_bytes"@,
        "cpu_count"@ != "mem_total_bytes"@,
{
    reveal_strlit("os_release");
    reveal_strlit("cpu_count");
    reveal_strlit("mem_total_bytes");
    assert("os_release"@[0] != "cpu_count"@[0]);
    assert("os_release"@[0] != "mem_total_bytes"@[0]);
    assert("cpu_count"@[0] != "mem_total_bytes"@[0]);
}

/// The keys of a service differ.
pub proof fn lemma_service_keys_differ()
    ensures
        "name"@ != "description"@,
        "name"@ != "active_state"@,
        "name"@ != "sub_state"@,
        "name"@ != "enabled"@,
        "description"@ != "active_state"@,
        "description"@ != "sub_state"@,
        "description"@ != "enabled"@,
        "active_state"@ != "sub_state"@,
        "active_state"@ != "enabled"@,
        "sub_state"@ != "enabled"@,
{
    reveal_strlit("name");
    reveal_strlit("description");
    reveal_strlit("active_state");
    reveal_strlit("sub_state");
    reveal_strlit("enabled");
    assert("name"@[0] != "description"@[0]);
    assert("name"@[0] != "active_state"@[0]);
    assert("name"@[0] != "sub_state"@[0]);
    assert("name"@[0] != "enabled"@[0]);
    assert("description"@[0] != "active_state"@[0]);
    assert("description"@[0] != "sub_state"@[0]);
    assert("description"@[0] != "enabled"@[0]);
    assert("active_state"@[0] != "sub_state"@[0]);
    assert("active_state"@[0] != "enabled"@[0]);
    assert("sub_state"@[0] != "enabled"@[0]);
}

/// The keys of the responses differ.
pub proof fn lemma_response_keys_differ()
    ensures
        "type"@ != "id"@,
        "type"@ != "agent_version"@,
        "type"@ != "capabilities"@,
        "type"@ != "info"@,
        "type"@ != "config"@,
        "type"@ != "services"@,
        "type"@ != "entries"@,
        "type"@ != "eof"@,
        "type"@ != "message"@,
        "id"@ != "agent_version"@,
        "id"@ != "capabilities"@,
        "id"@ != "info"@,
        "id"@ != "config"@,
        "id"@ != "services"@,
        "id"@ != "entries"@,
        "id"@ != "eof"@,
        "id"@ != "message"@,
        "agent_version"@ != "capabilities"@,
        "agent_version"@ != "info"@,
        "agent_version"@ != "config"@,
        "agent_version"@ != "services"@,
        "agent_version"@ != "entries"@,
        "agent_version"@ != "eof"@,
        "agent_version"@ != "message"@,
        "capabilities"@ != "info"@,
        "capabilities"@ != "config"@,
        "capabilities"@ != "services"@,
        "capabilities"@ != "entries"@,
        "capabilities"@ != "eof"@,
        "capabilities"@ != "message"@,
        "info"@ != "config"@,
        "info"@ != "services"@,
        "info"@ != "entries"@,
        "info"@ != "eof"@,
        "info"@ != "message"@,
        "config"@ != "services"@,
        "config"@ != "entries"@,
        "config"@ != "eof"@,
        "config"@ != "message"@,
        "services"@ != "entries"@,
        "services"@ != "eof"@,
        "services"@ != "message"@,
        "entries"@ != "eof"@,
        "entries"@ != "message"@,
        "eof"@ != "message"@,
{
    reveal_strlit("type");
    reveal_strlit("id");
    reveal_strlit("agent_version");
    reveal_strlit("capabilities");
    reveal_strlit("info");
    reveal_strlit("config");
    reveal_strlit("services");
    reveal_strlit("entries");
    reveal_strlit("eof");
    reveal_strlit("message");
    assert("type"@[0] != "id"@[0]);
    assert("type"@[0] != "agent_version"@[0]);
    assert("type"@[0] != "capabilities"@[0]);
    assert("type"@[0] != "info"@[0]);
    assert("type"@[0] != "config"@[0]);
    assert("type"@[0] != "services"@[0]);
    assert("type"@[0] != "entries"@[0]);
    assert("type"@[0] != "eof"@[0]);
    assert("type"@[0] != "message"@[0]);
    assert("id"@[0] != "agent_version"@[0]);
    assert("id"@[0] != "capabilities"@[0]);
    assert("id"@[1] != "info"@[1]);
    assert("id"@[0] != "config"@[0]);
    assert("id"@[0] != "services"@[0]);
    assert("id"@[0] != "entries"@[0]);
    assert("id"@[0] != "eof"@[0]);
    assert("id"@[0] != "message"@[0]);
    assert("agent_version"@[0] != "capabilities"@[0]);
    assert("agent_version"@[0] != "info"@[0]);
    assert("agent_version"@[0] != "config"@[0]);
    assert("agent_version"@[0] != "services"@[0]);
    assert("agent_version"@[0] != "entries"@[0]);
    assert("agent_version"@[0] != "eof"@[0]);
    assert("agent_version"@[0] != "message"@[0]);
    assert("capabilities"@[0] != "info"@[0]);
    assert("capabilities"@[1] != "config"@[1]);
    assert("capabilities"@[0] != "services"@[0]);
    assert("capabilities"@[0] != "entries"@[0]);
    assert("capabilities"@[0] != "eof"@[0]);
    assert("capabilities"@[0] != "message"@[0]);
    assert("info"@[0] != "config"@[0]);
    assert("info"@[0] != "services"@[0]);
    assert("info"@[0] != "entries"@[0]);
    assert("info"@[0] != "eof"@[0]);
    assert("info"@[0] != "message"@[0]);
    assert("config"@[0] != "services"@[0]);
    assert("config"@[0] != "entries"@[0]);
    assert("config"@[0] != "eof"@[0]);
    assert("config"@[0] != "message"@[0]);
    assert("services"@[0] != "entries"@[0]);
    assert("services"@[0] != "eof"@[0]);
    assert("services"@[0] != "message"@[0]);
    assert("entries"@[1] != "eof"@[1]);
    assert("entries"@[0] != "message"@[0]);
    assert("eof"@[0] != "message"@[0]);
}

/// The response tags differ.
pub proof fn lemma_response_tags_differ()
    ensures
        "hello_ack"@ != "sys_info_ok"@,
        "hello_ack"@ != "static_config_ok"@,
        "hello_ack"@ != "services_list_ok"@,
        "hello_ack"@ != "list_dir_ok"@,
        "hello_ack"@ != "error"@,
        "sys_info_ok"@ != "static_config_ok"@,
        "sys_info_ok"@ != "services_list_ok"@,
        "sys_info_ok"@ != "list_dir_ok"@,
        "sys_info_ok"@ != "error"@,
        "static_config_ok"@ != "services_list_ok"@,
        "static_config_ok"@ != "list_dir_ok"@,
        "static_config_ok"@ != "error"@,
        "services_list_ok"@ != "list_dir_ok"@,
        "services_list_ok"@ != "error"@,
        "list_dir_ok"@ != "error"@,
{
    reveal_strlit("hello_ack");
    reveal_strlit("sys_info_ok");
    reveal_strlit("static_config_ok");
    reveal_strlit("services_list_ok");
    reveal_strlit("list_dir_ok");
    reveal_strlit("error");
    assert("hello_ack"@[0] != "sys_info_ok"@[0]);
    assert("hello_ack"@[0] != "static_config_ok"@[0]);
    assert("hello_ack"@[0] != "services_list_ok"@[0]);
    assert("hello_ack"@[0] != "list_dir_ok"@[0]);
    assert("hello_ack"@[0] != "error"@[0]);
    assert("sys_info_ok"@[1] != "static_config_ok"@[1]);
    assert("sys_info_ok"@[1] != "services_list_ok"@[1]);
    assert("sys_info_ok"@[0] != "list_dir_ok"@[0]);
    assert("sys_info_ok"@[0] != "error"@[0]);
    assert("static_config_ok"@[1] != "services_list_ok"@[1]);
    assert("static_config_ok"@[0] != "list_dir_ok"@[0]);
    assert("static_config_ok"@[0] != "error"@[0]);
    assert("services_list_ok"@[0] != "list_dir_ok"@[0]);
    assert("services_list_ok"@[0] != "error"@[0]);
    assert("list_dir_ok"@[0] != "error"@[0]);
}

fn put(f: &mut Vec<(String, Json)>, k: &str, v: Json)
    ensures
        final(f)@.len() == old(f)@.len() + 1,
        final(f)@.subrange(0, old(f)@.len() as int) == old(f)@,
        final(f)@.last().0@ == k@,
        final(f)@.last().1 == v,
{
    f.push((string_of(k), v));
    assert(f@.subrange(0, f@.len() - 1) == old(f)@);
}

fn opt_string_json(v: &Option<String>) -> (j: Json)
    ensures
        opt_str_is(Some(j), *v),
{
    match v {
        Some(s) => Json::Str(s.clone()),
        None => Json::Null,
    }
}

fn encode_dir_entry(e: &DirEntry) -> (j: Json)
    ensures
        dir_entry_json(j, *e),
        keys(fields_of(j)) == seq!["name"@, "path"@, "is_dir"@, "size"@],
{
    proof {
        lemma_entry_keys_differ();
    }
    let mut f: Vec<(String, Json)> = Vec::new();
    put(&mut f, "name", Json::Str(e.name.clone()));
    put(&mut f, "path", Json::Str(e.path.clone()));
    put(&mut f, "is_dir", Json::Bool(e.is_dir));
    put(&mut f, "size", match e.size {
        Some(n) => Json::Number(n),
        None => Json::Null,
    });
    let ghost fs = f@;
    proof {
        lemma_field_at(fs, 0, "name"@);
        lemma_field_at(fs, 1, "path"@);
        lemma_field_at(fs, 2, "is_dir"@);
        lemma_field_at(fs, 3, "size"@);
    }
    assert(keys(fs) == seq!["name"@, "path"@, "is_dir"@, "size"@]);
    Json::Object(f)
}

fn encode_sys_info(i: &SysInfo) -> (j: Json)
    ensures
        sys_info_json(j, *i),
        keys(fields_of(j)) == seq!["os"@, "kernel"@, "arch"@, "uptime_secs"@, "hostname"@],
{
    proof {
        lemma_sys_info_keys_differ();
    }
    let mut f: Vec<(String, Json)> = Vec::new();
    put(&mut f, "os", Json::Str(i.os.clone()));
    put(&mut f, "kernel", Json::Str(i.kernel.clone()));
    put(&mut f, "arch", Json::Str(i.arch.clone()));
    put(&mut f, "uptime_secs", Json::Number(i.uptime_secs));
    put(&mut f, "hostname", Json::Str(i.hostname.clone()));
    let ghost fs = f@;
    proof {
        lemma_field_at(fs, 0, "os"@);
        lemma_field_at(fs, 1, "kernel"@);
        lemma_field_at(fs, 2, "arch"@);
        lemma_field_at(fs, 3, "uptime_secs"@);
        lemma_field_at(fs, 4, "hostname"@);
    }
    assert(keys(fs) == seq!["os"@, "kernel"@, "arch"@, "uptime_secs"@, "hostname"@]);
    Json::Object(f)
}

fn encode_static_config(c: &StaticConfig) -> (j: Json)
    ensures
        static_config_json(j, *c),
        keys(fields_of(j)) == seq!["os_release"@, "cpu_count"@, "mem_total_bytes"@],
{
    proof {
        lemma_config_keys_differ();
    }
    let mut f: Vec<(String, Json)> = Vec::new();
    put(&mut f, "os_release", opt_string_json(&c.os_release));
    put(&mut f, "cpu_count", Json::Number(c.cpu_count as u64));
    put(&mut f, "mem_total_bytes", Json::Number(c.mem_total_bytes));
    let ghost fs = f@;
    proof {
        lemma_field_at(fs, 0, "os_release"@);
        lemma_field_at(fs, 1, "cpu_count"@);
        lemma_field_at(fs, 2, "mem_total_bytes"@);
    }
    assert(keys(fs) == seq!["os_release"@, "cpu_count"@, "mem_total_bytes"@]);
    Json::Object(f)
}

fn encode_service(s: &ServiceInfo) -> (j: Json)
    ensures
        service_json(j, *s),
        keys(fields_of(j)) == seq!["name"@, "description"@, "active_state"@, "sub_state"@, "enabled"@],
{
    proof {
        lemma_service_keys_differ();
    }
    let mut f: Vec<(String, Json)> = Vec::new();
    put(&mut f, "name", Json::Str(s.name.clone()));
    put(&mut f, "description", opt_string_json(&s.description));
    put(&mut f, "active_state", Json::Str(s.active_state.clone()));
    put(&mut f, "sub_state", Json::Str(s.sub_state.clone()));
    put(&mut f, "enabled", match s.enabled {
        Some(b) => Json::Bool(b),
        None => Json::Null,
    });
    let ghost fs = f@;
    proof {
        lemma_field_at(fs, 0, "name"@);
        lemma_field_at(fs, 1, "description"@);
        lemma_field_at(fs, 2, "active_state"@);
        lemma_field_at(fs, 3, "sub_state"@);
        lemma_field_at(fs, 4, "enabled"@);
    }
    assert(keys(fs) == seq!["name"@, "description"@, "active_state"@, "sub_state"@, "enabled"@]);
    Json::Object(f)
}

fn capability_text(c: Capability) -> (r: String)
    ensures
        r@ == capability_name(c),
{
    match c {
        Capability::SysInfo => string_of("sys_info"),
        Capability::StaticConfig => string_of("static_config"),
        Capability::ServicesList => string_of("services_list"),
        Capability::ContainersList => string_of("containers_list"),
        Capability::NetListeners => string_of("net_listeners"),
        Capability::ProcessesSummary => string_of("processes_summary"),
    }
}

fn encode_capabilities(caps: &Vec<Capability>) -> (j: Json)
    ensures
        items_of(Some(j)) matches Some(items) && capabilities_json(items, caps@),
{
    let mut v: Vec<Json> = Vec::new();
    let mut i: usize = 0;
    while i < caps.len()
        invariant
            i <= caps@.len(),
            v@.len() == i,
            forall|k: int| 0 <= k < i ==> str_of(Some(#[trigger] v@[k])) == Some(capability_name(caps@[k])),
        decreases caps@.len() - i,
    {
        v.push(Json::Str(capability_text(caps[i])));
        i = i + 1;
    }
    Json::Array(v)
}

fn encode_services(list: &Vec<ServiceInfo>) -> (j: Json)
    ensures
        items_of(Some(j)) matches Some(items) && services_json(items, list@),
{
    let mut v: Vec<Json> = Vec::new();
    let mut i: usize = 0;
    while i < list.len()
        invariant
            i <= list@.len(),
            v@.len() == i,
            forall|k: int| 0 <= k < i ==> service_json(#[trigger] v@[k], list@[k]),
        decreases list@.len() - i,
    {
        v.push(encode_service(&list[i]));
        i = i + 1;
    }
    Json::Array(v)
}

fn encode_entries(list: &Vec<DirEntry>) -> (j: Json)
    ensures
        items_of(Some(j)) matches Some(items) && entries_json(items, list@),
{
    let mut v: Vec<Json> = Vec::new();
    let mut i: usize = 0;
    while i < list.len()
        invariant
            i <= list@.len(),
            v@.len() == i,
            forall|k: int| 0 <= k < i ==> dir_entry_json(#[trigger] v@[k], list@[k]),
        decreases list@.len() - i,
    {
        v.push(encode_dir_entry(&list[i]));
        i = i + 1;
    }
    Json::Array(v)
}

/// The keys that an encoded response carries, in order.
pub open spec fn response_keys(r: Response) -> Seq<Seq<char>> {
    match r {
        Response::HelloAck { .. } => seq!["type"@, "id"@, "agent_version"@, "capabilities"@],
        Response::SysInfoOk { .. } => seq!["type"@, "id"@, "info"@],
        Response::StaticConfigOk { .. } => seq!["type"@, "id"@, "config"@],
        Response::ServicesListOk { .. } => seq!["type"@, "id"@, "services"@],
        Response::ListDirOk { .. } => seq!["type"@, "id"@, "entries"@, "eof"@],
        Response::Error { .. } => seq!["type"@, "id"@, "message"@],
    }
}

/// The JSON form of a response.
pub fn encode_response(r: &Response) -> (j: Json)
    ensures
        response_json(j, *r),
        keys(fields_of(j)) == response_keys(*r),
{
    proof {
        lemma_response_keys_differ();
    }
    let mut f: Vec<(String, Json)> = Vec::new();
    match r {
        Response::HelloAck { id, agent_version, capabilities } => {
            put(&mut f, "type", Json::Str(string_of("hello_ack")));
            put(&mut f, "id", Json::Number(*id));
            put(&mut f, "agent_version", Json::Str(agent_version.clone()));
            put(&mut f, "capabilities", encode_capabilities(capabilities));
            proof {
                lemma_field_at(f@, 2, "agent_version"@);
                lemma_field_at(f@, 3, "capabilities"@);
            }
        },
        Response::SysInfoOk { id, info } => {
            put(&mut f, "type", Json::Str(string_of("sys_info_ok")));
            put(&mut f, "id", Json::Number(*id));
            put(&mut f, "info", encode_sys_info(info));
            proof {
                lemma_field_at(f@, 2, "info"@);
            }
        },
        Response::StaticConfigOk { id, config } => {
            put(&mut f, "type", Json::Str(string_of("static_config_ok")));
            put(&mut f, "id", Json::Number(*id));
            put(&mut f, "config", encode_static_config(config));
            proof {
                lemma_field_at(f@, 2, "config"@);
            }
        },
        Response::ServicesListOk { id, services } => {
            put(&mut f, "type", Json::Str(string_of("services_list_ok")));
            put(&mut f, "id", Json::Number(*id));
            put(&mut f, "services", encode_services(services));
            proof {
                lemma_field_at(f@, 2, "services"@);
            }
        },
        Response::ListDirOk { id, entries, eof } => {
            put(&mut f, "type", Json::Str(string_of("list_dir_ok")));
            put(&mut f, "id", Json::Number(*id));
            put(&mut f, "entries", encode_entries(entries));
            put(&mut f, "eof", Json::Bool(*eof));
            proof {
                lemma_field_at(f@, 2, "entries"@);
                lemma_field_at(f@, 3, "eof"@);
            }
        },
        Response::Error { id, message } => {
            put(&mut f, "type", Json::Str(string_of("error")));
            put(&mut f, "id", Json::Number(*id));
            put(&mut f, "message", Json::Str(message.clone()));
            proof {
                lemma_field_at(f@, 2, "message"@);
            }
        },
    }
    proof {
        lemma_field_at(f@, 0, "type"@);
        lemma_field_at(f@, 1, "id"@);
    }
    assert(keys(f@) == response_keys(*r));
    Json::Object(f)
}

fn read_str(fields: &Vec<(String, Json)>, key: &str) -> (r: Result<String, String>)
    ensures
        match r {
            Ok(s) => str_of(field(fields@, key@)) == Some(s@),
            Err(_) => str_of(field(fields@, key@)) is None,
        },
{
    match get_field(fields, key) {
        Some(Json::Str(s)) => Ok(s.clone()),
        _ => Err(field_error(key)),
    }
}

fn read_u64(fields: &Vec<(String, Json)>, key: &str) -> (r: Result<u64, String>)
    ensures
        match r {
            Ok(n) => u64_of(field(fields@, key@)) == Some(n),
            Err(_) => u64_of(field(fields@, key@)) is None,
        },
{
    match get_field(fields, key) {
        Some(Json::Number(n)) => Ok(*n),
        _ => Err(field_error(key)),
    }
}

fn read_bool(fields: &Vec<(String, Json)>, key: &str) -> (r: Result<bool, String>)
    ensures
        match r {
            Ok(b) => bool_of(field(fields@, key@)) == Some(b),
            Err(_) => bool_of(field(fields@, key@)) is None,
        },
{
    match get_field(fields, key) {
        Some(Json::Bool(b)) => Ok(*b),
        _ => Err(field_error(key)),
    }
}

fn read_opt_str(fields: &Vec<(String, Json)>, key: &str) -> (r: Result<Option<String>, String>)
    ensures
        match r {
            Ok(v) => opt_str_is(field(fields@, key@), v),
            Err(_) => forall|v: Option<String>| !opt_str_is(field(fields@, key@), v),
        },
{
    match get_field(fields, key) {
        None => Ok(None),
        Some(Json::Null) => Ok(None),
        Some(Json::Str(s)) => Ok(Some(s.clone())),
        _ => Err(field_error(key)),
    }
}

fn read_opt_u64(fields: &Vec<(String, Json)>, key: &str) -> (r: Result<Option<u64>, String>)
    ensures
        match r {
            Ok(v) => opt_u64_is(field(fields@, key@), v),
            Err(_) => forall|v: Option<u64>| !opt_u64_is(field(fields@, key@), v),
        },
{
    match get_field(fields, key) {
        None => Ok(None),
        Some(Json::Null) => Ok(None),
        Some(Json::Number(n)) => Ok(Some(*n)),
        _ => Err(field_error(key)),
    }
}

fn read_opt_bool(fields: &Vec<(String, Json)>, key: &str) -> (r: Result<Option<bool>, String>)
    ensures
        match r {
            Ok(v) => opt_bool_is(field(fields@, key@), v),
            Err(_) => forall|v: Option<bool>| !opt_bool_is(field(fields@, key@), v),
        },
{
    match get_field(fields, key) {
        None => Ok(None),
        Some(Json::Null) => Ok(None),
        Some(Json::Bool(b)) => Ok(Some(*b)),
        _ => Err(field_error(key)),
    }
}

fn object_fields(j: &Json) -> (r: Result<&Vec<(String, Json)>, String>)
    ensures
        match r {
            Ok(f) => j is Object && fields_of(*j) == f@,
            Err(_) => !(j is Object),
        },
{
    match j {
        Json::Object(f) => Ok(f),
        _ => Err(string_of("expected a JSON object")),
    }
}

fn decode_dir_entry(j: &Json) -> (r: Result<DirEntry, String>)
    ensures
        match r {
            Ok(e) => dir_entry_json(*j, e),
            Err(_) => forall|e: DirEntry| !dir_entry_json(*j, e),
        },
{
    let f = object_fields(j)?;
    let name = read_str(f, "name")?;
    let path = read_str(f, "path")?;
    let is_dir = read_bool(f, "is_dir")?;
    let size = read_opt_u64(f, "size")?;
    Ok(DirEntry { name, path, is_dir, size })
}

fn decode_sys_info(j: &Json) -> (r: Result<SysInfo, String>)
    ensures
        match r {
            Ok(i) => sys_info_json(*j, i),
            Err(_) => forall|i: SysInfo| !sys_info_json(*j, i),
        },
{
    let f = object_fields(j)?;
    let os = read_str(f, "os")?;
    let kernel = read_str(f, "kernel")?;
    let arch = read_str(f, "arch")?;
    let uptime_secs = read_u64(f, "uptime_secs")?;
    let hostname = read_str(f, "hostname")?;
    Ok(SysInfo { os, kernel, arch, uptime_secs, hostname })
}

fn decode_static_config(j: &Json) -> (r: Result<StaticConfig, String>)
    ensures
        match r {
            Ok(c) => static_config_json(*j, c),
            Err(_) => forall|c: StaticConfig| !static_config_json(*j, c),
        },
{
    let f = object_fields(j)?;
    let os_release = read_opt_str(f, "os_release")?;
    let cpu = read_u64(f, "cpu_count")?;
    if cpu > u32::MAX as u64 {
        return Err(field_error("cpu_count"));
    }
    let mem_total_bytes = read_u64(f, "mem_total_bytes")?;
    Ok(StaticConfig { os_release, cpu_count: cpu as u32, mem_total_bytes })
}

fn decode_service(j: &Json) -> (r: Result<ServiceInfo, String>)
    ensures
        match r {
            Ok(s) => service_json(*j, s),
            Err(_) => forall|s: ServiceInfo| !service_json(*j, s),
        },
{
    let f = object_fields(j)?;
    let name = read_str(f, "name")?;
    let description = read_opt_str(f, "description")?;
    let active_state = read_str(f, "active_state")?;
    let sub_state = read_str(f, "sub_state")?;
    let enabled = read_opt_bool(f, "enabled")?;
    Ok(ServiceInfo { name, description, active_state, sub_state, enabled })
}

fn capability_named(s: &str) -> (r: Option<Capability>)
    ensures
        match r {
            Some(c) => capability_name(c) == s@,
            None => forall|c: Capability| capability_name(c) != s@,
        },
{
    if crate::text::str_eq(s, "sys_info") {
        Some(Capability::SysInfo)
    } else if crate::text::str_eq(s, "static_config") {
        Some(Capability::StaticConfig)
    } else if crate::text::str_eq(s, "services_list") {
        Some(Capability::ServicesList)
    } else if crate::text::str_eq(s, "containers_list") {
        Some(Capability::ContainersList)
    } else if crate::text::str_eq(s, "net_listeners") {
        Some(Capability::NetListeners)
    } else if crate::text::str_eq(s, "processes_summary") {
        Some(Capability::ProcessesSummary)
    } else {
        None
    }
}

fn read_items<'a>(fields: &'a Vec<(String, Json)>, key: &str) -> (r: Result<&'a Vec<Json>, String>)
    ensures
        match r {
            Ok(v) => items_of(field(fields@, key@)) == Some(v@),
            Err(_) => items_of(field(fields@, key@)) is None,
        },
{
    match get_field(fields, key) {
        Some(Json::Array(v)) => Ok(v),
        _ => Err(field_error(key)),
    }
}

fn decode_capabilities(items: &Vec<Json>) -> (r: Result<Vec<Capability>, String>)
    ensures
        match r {
            Ok(v) => capabilities_json(items@, v@),
            Err(_) => forall|v: Seq<Capability>| !capabilities_json(items@, v),
        },
{
    let mut out: Vec<Capability> = Vec::new();
    let mut i: usize = 0;
    while i < items.len()
        invariant
            i <= items@.len(),
            out@.len() == i,
            forall|k: int|
                0 <= k < i ==> str_of(Some(#[trigger] items@[k])) == Some(capability_name(out@[k])),
        decreases items@.len() - i,
    {
        let c = match &items[i] {
            Json::Str(s) => capability_named(s.as_str()),
            _ => None,
        };
        match c {
            Some(c) => out.push(c),
            None => {
                assert forall|v: Seq<Capability>| !capabilities_json(items@, v) by {
                    if capabilities_json(items@, v) {
                        assert(str_of(Some(items@[i as int])) == Some(capability_name(v[i as int])));
                    }
                }
                return Err(string_of("unknown capability"));
            },
        }
        i = i + 1;
    }
    Ok(out)
}

fn decode_services(items: &Vec<Json>) -> (r: Result<Vec<ServiceInfo>, String>)
    ensures
        match r {
            Ok(v) => services_json(items@, v@),
            Err(_) => forall|v: Seq<ServiceInfo>| !services_json(items@, v),
        },
{
    let mut out: Vec<ServiceInfo> = Vec::new();
    let mut i: usize = 0;
    while i < items.len()
        invariant
            i <= items@.len(),
            out@.len() == i,
            forall|k: int| 0 <= k < i ==> service_json(#[trigger] items@[k], out@[k]),
        decreases items@.len() - i,
    {
        let s = match decode_service(&items[i]) {
            Ok(s) => s,
            Err(e) => {
                assert forall|v: Seq<ServiceInfo>| !services_json(items@, v) by {
                    if services_json(items@, v) {
                        assert(service_json(items@[i as int], v[i as int]));
                    }
                }
                return Err(e);
            },
        };
        out.push(s);
        i = i + 1;
    }
    Ok(out)
}

fn decode_entries(items: &Vec<Json>) -> (r: Result<Vec<DirEntry>, String>)
    ensures
        match r {
            Ok(v) => entries_json(items@, v@),
            Err(_) => forall|v: Seq<DirEntry>| !entries_json(items@, v),
        },
{
    let mut out: Vec<DirEntry> = Vec::new();
    let mut i: usize = 0;
    while i < items.len()
        invariant
            i <= items@.len(),
            out@.len() == i,
            forall|k: int| 0 <= k < i ==> dir_entry_json(#[trigger] items@[k], out@[k]),
        decreases items@.len() - i,
    {
        let e = match decode_dir_entry(&items[i]) {
            Ok(e) => e,
            Err(m) => {
                assert forall|v: Seq<DirEntry>| !entries_json(items@, v) by {
                    if entries_json(items@, v) {
                        assert(dir_entry_json(items@[i as int], v[i as int]));
                    }
                }
                return Err(m);
            },
        };
        out.push(e);
        i = i + 1;
    }
    Ok(out)
}

/// Reads a response from its JSON form: it succeeds exactly on the JSON forms
/// of responses.
pub fn decode_response(j: &Json) -> (r: Result<Response, String>)
    ensures
        match r {
            Ok(resp) => response_json(*j, resp),
            Err(_) => forall|resp: Response| !response_json(*j, resp),
        },
{
    proof {
        lemma_response_tags_differ();
    }
    let f = object_fields(j)?;
    let tag = read_str(f, "type")?;
    let id = read_u64(f, "id")?;
    let t = tag.as_str();
    if crate::text::str_eq(t, "hello_ack") {
        let agent_version = read_str(f, "agent_version")?;
        let items = read_items(f, "capabilities")?;
        let capabilities = decode_capabilities(items)?;
        Ok(Response::HelloAck { id, agent_version, capabilities })
    } else if crate::text::str_eq(t, "sys_info_ok") {
        let info = match get_field(f, "info") {
            Some(v) => decode_sys_info(v)?,
            None => {
                return Err(field_error("info"));
            },
        };
        Ok(Response::SysInfoOk { id, info })
    } else if crate::text::str_eq(t, "static_config_ok") {
        let config = match get_field(f, "config") {
            Some(v) => decode_static_config(v)?,
            None => {
                return Err(field_error("config"));
            },
        };
        Ok(Response::StaticConfigOk { id, config })
    } else if crate::text::str_eq(t, "services_list_ok") {
        let items = read_items(f, "services")?;
        let services = decode_services(items)?;
        Ok(Response::ServicesListOk { id, services })
    } else if crate::text::str_eq(t, "list_dir_ok") {
        let items = read_items(f, "entries")?;
        let entries = decode_entries(items)?;
        let eof = read_bool(f, "eof")?;
        Ok(Response::ListDirOk { id, entries, eof })
    } else if crate::text::str_eq(t, "error") {
        let message = read_str(f, "message")?;
        Ok(Response::Error { id, message })
    } else {
        Err(string_of("unknown response type"))
    }
}

/// Decoding an encoded response succeeds, with a response that has the same
/// JSON form and the same id: `j` is what `encode_response` returned for `r`,
/// and `d` what `decode_response` returned for `j`.
pub proof fn lemma_response_round_trip(r: Response, j: Json, d: Result<Response, String>)
    requires
        response_json(j, r),
        match d {
            Ok(resp) => response_json(j, resp),
            Err(_) => forall|resp: Response| !response_json(j, resp),
        },
    ensures
        d is Ok,
        response_json(j, d->Ok_0),
        d->Ok_0.spec_id() == r.spec_id(),
{
}

} // verus!
