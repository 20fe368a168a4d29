//! JSON values as the wire carries them, and the JSON form of commands.

use vstd::prelude::*;
use vstd::string::*;
use crate::proto::{Command, CommandV};
use crate::text::{str_eq, string_of};

verus! {

/// A JSON value as the wire carries it. Numbers are read as unsigned 64-bit
/// integers; any other number (negative or fractional) is `OtherNumber`.
#[derive(Debug)]
pub enum Json {
    Null,
    Bool(bool),
    Number(u64),
    OtherNumber,
    Str(String),
    Array(Vec<Json>),
    Object(Vec<(String, Json)>),
}

/// The value stored under `key` in an object's fields (the first one, if the
/// key repeats).
pub open spec fn field(fields: Seq<(String, Json)>, key: Seq<char>) -> Option<Json>
    decreases fields.len(),
{
    if fields.len() == 0 {
        None
    } else if fields[0].0@ == key {
        Some(fields[0].1)
    } else {
        field(fields.drop_first(), key)
    }
}

/// The words of the command schema are pairwise different.
pub proof fn lemma_command_words_differ()
    ensures
        "cmd"@ != "id"@,
        "client_version"@ != "cmd"@,
        "client_version"@ != "id"@,
        "path"@ != "cmd"@,
        "path"@ != "id"@,
        "max"@ != "cmd"@,
        "max"@ != "id"@,
        "max"@ != "path"@,
        "skip"@ != "cmd"@,
        "skip"@ != "id"@,
        "skip"@ != "path"@,
        "skip"@ != "max"@,
        "sys_info"@ != "hello"@,
        "static_config"@ != "hello"@,
        "static_config"@ != "sys_info"@,
        "services_list"@ != "hello"@,
        "services_list"@ != "sys_info"@,
        "services_list"@ != "static_config"@,
        "list_dir"@ != "hello"@,
        "list_dir"@ != "sys_info"@,
        "list_dir"@ != "static_config"@,
        "list_dir"@ != "services_list"@,
{
    reveal_strlit("cmd");
    reveal_strlit("id");
    reveal_strlit("client_version");
    reveal_strlit("path");
    reveal_strlit("max");
    reveal_strlit("skip");
    reveal_strlit("hello");
    reveal_strlit("sys_info");
    reveal_strlit("static_config");
    reveal_strlit("services_list");
    reveal_strlit("list_dir");
    assert("cmd"@[0] != "id"@[0]);
    assert("client_version"@[1] != "cmd"@[1]);
    assert("max"@[0] != "path"@[0]);
    assert("skip"@[0] != "path"@[0]);
    assert("sys_info"@[0] != "hello"@[0]);
    assert("static_config"@[1] != "sys_info"@[1]);
    assert("services_list"@[0] != "hello"@[0]);
    assert("services_list"@[1] != "sys_info"@[1]);
    assert("services_list"@[1] != "static_config"@[1]);
    assert("list_dir"@[0] != "hello"@[0]);
    assert("list_dir"@[0] != "sys_info"@[0]);
}

/// The first field with a given key is the one `field` finds.
pub proof fn lemma_field_at(fields: Seq<(String, Json)>, i: int, key: Seq<char>)
    requires
        0 <= i < fields.len(),
        fields[i].0@ == key,
        forall|k: int| 0 <= k < i ==> fields[k].0@ != key,
    ensures
        field(fields, key) == Some(fields[i].1),
    decreases i,
{
    if i > 0 {
        lemma_field_at(fields.drop_first(), i - 1, key);
    }
}

pub open spec fn keys(fields: Seq<(String, Json)>) -> Seq<Seq<char>> {
    fields.map_values(|f: (String, Json)| f.0@)
}

pub open spec fn str_of(j: Option<Json>) -> Option<Seq<char>> {
    match j {
        Some(Json::Str(s)) => Some(s@),
        _ => None,
    }
}

pub open spec fn u64_of(j: Option<Json>) -> Option<u64> {
    match j {
        Some(Json::Number(n)) => Some(n),
        _ => None,
    }
}

/// An optional count: absent or `null` is `Some(None)`, a number that fits in
/// `usize` is `Some(Some(n))`; anything else does not decode (`None`).
pub open spec fn opt_usize_of(j: Option<Json>) -> Option<Option<usize>> {
    match j {
        None => Some(None),
        Some(Json::Null) => Some(None),
        Some(Json::Number(n)) => if n <= usize::MAX {
            Some(Some(n as usize))
        } else {
            None
        },
        _ => None,
    }
}

/// The command that a JSON value denotes: an object whose `"cmd"` names the
/// variant in snake case, with the variant's fields beside it. Other keys are
/// ignored.
pub open spec fn command_of(j: Json) -> Option<CommandV> {
    match j {
        Json::Object(fields) => {
            let f = fields@;
            match (str_of(field(f, "cmd"@)), u64_of(field(f, "id"@))) {
                (Some(t), Some(id)) => if t == "hello"@ {
                    match str_of(field(f, "client_version"@)) {
                        Some(v) => Some(CommandV::Hello { id, client_version: v }),
                        None => None,
                    }
                } else if t == "sys_info"@ {
                    Some(CommandV::SysInfo { id })
                } else if t == "static_config"@ {
                    Some(CommandV::StaticConfig { id })
                } else if t == "services_list"@ {
                    Some(CommandV::ServicesList { id })
                } else if t == "list_dir"@ {
                    match (
                        str_of(field(f, "path"@)),
                        opt_usize_of(field(f, "max"@)),
                        opt_usize_of(field(f, "skip"@)),
                    ) {
                        (Some(path), Some(max), Some(skip)) => Some(
                            CommandV::ListDir { id, path, max, skip },
                        ),
                        _ => None,
                    }
                } else {
                    None
                },
                _ => None,
            }
        },
        _ => None,
    }
}

/// The keys that an encoded command carries, in order.
pub open spec fn command_keys(c: CommandV) -> Seq<Seq<char>> {
    match c {
        CommandV::Hello { .. } => seq!["cmd"@, "id"@, "client_version"@],
        CommandV::ListDir { .. } => seq!["cmd"@, "id"@, "path"@, "max"@, "skip"@],
        _ => seq!["cmd"@, "id"@],
    }
}

/// The value under `key` in `fields`.
pub fn get_field<'a>(fields: &'a Vec<(String, Json)>, key: &str) -> (r: Option<&'a Json>)
    ensures
        match r {
            Some(v) => field(fields@, key@) == Some(*v),
            None => field(fields@, key@) is None,
        },
{
    let n = fields.len();
    let mut i: usize = 0;
    assert(fields@.subrange(0, n as int) == fields@);
    while i < n
        invariant
            n == fields@.len(),
            i <= n,
            field(fields@, key@) == field(fields@.subrange(i as int, n as int), key@),
        decreases n - i,
    {
        let ghost rest = fields@.subrange(i as int, n as int);
        if str_eq(fields[i].0.as_str(), key) {
            return Some(&fields[i].1);
        }
        assert(rest.drop_first() == fields@.subrange(i + 1, n as int));
        i = i + 1;
    }
    None
}

pub open spec fn opt_val(j: Option<&Json>) -> Option<Json> {
    match j {
        Some(v) => Some(*v),
        None => None,
    }
}

fn take_str(j: Option<&Json>) -> (r: Option<String>)
    ensures
        match r {
            Some(s) => str_of(opt_val(j)) == Some(s@),
            None => str_of(opt_val(j)) is None,
        },
{
    match j {
        Some(Json::Str(s)) => Some(s.clone()),
        _ => None,
    }
}

fn take_u64(j: Option<&Json>) -> (r: Option<u64>)
    ensures
        r == u64_of(opt_val(j)),
{
    match j {
        Some(Json::Number(n)) => Some(*n),
        _ => None,
    }
}

fn take_opt_usize(j: Option<&Json>) -> (r: Option<Option<usize>>)
    ensures
        r == opt_usize_of(opt_val(j)),
{
    match j {
        None => Some(None),
        Some(Json::Null) => Some(None),
        Some(Json::Number(n)) => if *n <= usize::MAX as u64 {
            Some(Some(*n as usize))
        } else {
            None
        },
        _ => None,
    }
}

/// The complaint about a field that is missing or of the wrong kind.
pub(crate) fn field_error(key: &str) -> (r: String) {
    let mut m = string_of("missing or invalid field `");
    m.append(key);
    m.append("`");
    m
}

/// Reads a command from its JSON form.
pub fn decode_command(j: &Json) -> (r: Result<Command, String>)
    ensures
        match r {
            Ok(c) => command_of(*j) == Some(c@),
            Err(_) => command_of(*j) is None,
        },
{
    let fields = match j {
        Json::Object(fields) => fields,
        _ => {
            return Err(string_of("expected a JSON object"));
        },
    };
    let tag = match take_str(get_field(fields, "cmd")) {
        Some(t) => t,
        None => {
            return Err(field_error("cmd"));
        },
    };
    let id = match take_u64(get_field(fields, "id")) {
        Some(id) => id,
        None => {
            return Err(field_error("id"));
        },
    };
    if str_eq(tag.as_str(), "hello") {
        match take_str(get_field(fields, "client_version")) {
            Some(v) => Ok(Command::Hello { id, client_version: v }),
            None => Err(field_error("client_version")),
        }
    } else if str_eq(tag.as_str(), "sys_info") {
        Ok(Command::SysInfo { id })
    } else if str_eq(tag.as_str(), "static_config") {
        Ok(Command::StaticConfig { id })
    } else if str_eq(tag.as_str(), "services_list") {
        Ok(Command::ServicesList { id })
    } else if str_eq(tag.as_str(), "list_dir") {
        let path = match take_str(get_field(fields, "path")) {
            Some(p) => p,
            None => {
                return Err(field_error("path"));
            },
        };
        let max = match take_opt_usize(get_field(fields, "max")) {
            Some(m) => m,
            None => {
                return Err(field_error("max"));
            },
        };
        let skip = match take_opt_usize(get_field(fields, "skip")) {
            Some(k) => k,
            None => {
                return Err(field_error("skip"));
            },
        };
        Ok(Command::ListDir { id, path, max, skip })
    } else {
        let mut m = string_of("unknown command `");
        m.append(tag.as_str());
        m.append("`");
        Err(m)
    }
}

fn opt_usize_json(v: Option<usize>) -> (r: Json)
    ensures
        opt_usize_of(Some(r)) == Some(v),
{
    match v {
        Some(n) => Json::Number(n as u64),
        None => Json::Null,
    }
}

/// The JSON form of a command.
pub fn encode_command(c: &Command) -> (j: Json)
    ensures
        command_of(j) == Some(c@),
        j is Object && keys(j->Object_0@) == command_keys(c@),
{
    proof {
        lemma_command_words_differ();
    }
    let mut f: Vec<(String, Json)> = Vec::new();
    match c {
        Command::Hello { id, client_version } => {
            f.push((string_of("cmd"), Json::Str(string_of("hello"))));
            f.push((string_of("id"), Json::Number(*id)));
            f.push((string_of("client_version"), Json::Str(client_version.clone())));
        },
        Command::SysInfo { id } => {
            f.push((string_of("cmd"), Json::Str(string_of("sys_info"))));
            f.push((string_of("id"), Json::Number(*id)));
        },
        Command::StaticConfig { id } => {
            f.push((string_of("cmd"), Json::Str(string_of("static_config"))));
            f.push((string_of("id"), Json::Number(*id)));
        },
        Command::ServicesList { id } => {
            f.push((string_of("cmd"), Json::Str(string_of("services_list"))));
            f.push((string_of("id"), Json::Number(*id)));
        },
        Command::ListDir { id, path, max, skip } => {
            f.push((string_of("cmd"), Json::Str(string_of("list_dir"))));
            f.push((string_of("id"), Json::Number(*id)));
            f.push((string_of("path"), Json::Str(path.clone())));
            f.push((string_of("max"), opt_usize_json(*max)));
            f.push((string_of("skip"), opt_usize_json(*skip)));
        },
    }
    let ghost fs = f@;
    assert(keys(fs) == command_keys(c@));
    proof {
        lemma_field_at(fs, 0, "cmd"@);
        lemma_field_at(fs, 1, "id"@);
        if fs.len() == 3 {
            lemma_field_at(fs, 2, "client_version"@);
        }
        if fs.len() == 5 {
            lemma_field_at(fs, 2, "path"@);
            lemma_field_at(fs, 3, "max"@);
            lemma_field_at(fs, 4, "skip"@);
        }
    }
    Json::Object(f)
}

/// Encoding a command and decoding the result gives the command back: `j` is
/// what `encode_command` returned for `c`, and `r` what `decode_command`
/// returned for `j`.
pub proof fn lemma_command_round_trip(c: Command, j: Json, r: Result<Command, String>)
    requires
        command_of(j) == Some(c@),
        match r {
            Ok(d) => command_of(j) == Some(d@),
            Err(_) => command_of(j) is None,
        },
    ensures
        r matches Ok(d) && d@ == c@,
{
}

/// Whether text can travel as one line: it holds no line feed or carriage
/// return.
pub open spec fn fits_one_line(t: Seq<char>) -> bool {
    !t.contains('\n') && !t.contains('\r')
}

/// One message as a line of the wire: its JSON text and a line feed. `None`
/// when the text holds a line break, which would split the message.
pub fn frame_line(json_text: &str) -> (r: Option<String>)
    ensures
        match r {
            Some(l) => fits_one_line(json_text@) && l@ == json_text@ + "\n"@,
            None => !fits_one_line(json_text@),
        },
{
    let n = json_text.unicode_len();
    let mut i: usize = 0;
    while i < n
        invariant
            n == json_text@.len(),
            i <= n,
            forall|j: int| 0 <= j < i ==> json_text@[j] != '\n' && json_text@[j] != '\r',
        decreases n - i,
    {
        let c = json_text.get_char(i);
        if c == '\n' || c == '\r' {
            assert(json_text@[i as int] == c);
            return None;
        }
        i = i + 1;
    }
    let mut l = string_of(json_text);
    l.append("\n");
    Some(l)
}

} // verus!
