use slarti::config_text::{join_tokens, match_conditions, parse_config_text, strip_inline_comment, tokenize};
use slarti::sshcfg::{
    effective_user_for_alias, glob_match, is_glob_pattern, list_aliases, ConfigTree, FileNode,
    HostEntry, MatchCond,
};

fn s(x: &str) -> String {
    x.to_string()
}

fn node(path: &str, text: &str, includes: Vec<FileNode>) -> FileNode {
    let p = parse_config_text(text, path);
    FileNode { path: s(path), hosts: p.hosts, includes, matches: p.matches }
}

const MAIN: &str = "\
# personal hosts
Host mitko mitko.example.com   # trailing comment
    HostName 10.0.0.5
    User alice
    user bob

Host *.example.com
    User wildcard

Host db?
    User dbadmin
    Port \"22 22\"

Include conf.d/*

Match host mitko user bob
    User carol

Match all
    IdentityFile ~/.ssh/id_ed25519
";

#[test]
fn comments_and_quotes_are_stripped() {
    assert_eq!(strip_inline_comment("Host a # comment"), "Host a ");
    assert_eq!(strip_inline_comment("Name \"a # b\" # c"), "Name a # b ");
    assert_eq!(strip_inline_comment("Name 'it\"s' x"), "Name it\"s x");
    assert_eq!(strip_inline_comment("# whole line"), "");
}

#[test]
fn tokens_respect_quotes() {
    assert_eq!(tokenize("  Host  a\tb  "), vec![s("Host"), s("a"), s("b")]);
    assert_eq!(tokenize("Port \"22 22\" x"), vec![s("Port"), s("22 22"), s("x")]);
    assert_eq!(tokenize("a'b c'd"), vec![s("ab cd")]);
    assert!(tokenize("   ").is_empty());
    assert_eq!(join_tokens(&[s("a"), s("b c"), s("d")]), "a b c d");
    assert_eq!(join_tokens(&[]), "");
}

#[test]
fn match_criteria_are_read() {
    let c = match_conditions(&[s("Host"), s("a"), s("b*"), s("user"), s("root"), s("final"), s("exec"), s("x"), s("all")]);
    assert_eq!(c.len(), 3);
    assert!(matches!(&c[0], MatchCond::Host(p) if p == &vec![s("a"), s("b*")]));
    assert!(matches!(&c[1], MatchCond::User(p) if p == &vec![s("root")]));
    assert!(matches!(&c[2], MatchCond::All));
    assert!(match_conditions(&[s("host")]).is_empty());
}

#[test]
fn config_text_yields_blocks_in_order() {
    let p = parse_config_text(MAIN, "/home/u/.ssh/config");
    assert_eq!(p.hosts.len(), 3);
    assert_eq!(p.hosts[0].patterns, vec![s("mitko"), s("mitko.example.com")]);
    assert_eq!(p.hosts[0].line, 2);
    assert_eq!(p.hosts[0].source, "/home/u/.ssh/config");
    assert_eq!(p.hosts[0].get("USER"), Some("bob"));
    assert_eq!(p.hosts[0].get("hostname"), Some("10.0.0.5"));
    assert_eq!(p.hosts[0].get("port"), None);
    assert_eq!(p.hosts[2].get("Port"), Some("22 22"));
    assert_eq!(p.includes, vec![vec![s("conf.d/*")]]);
    assert_eq!(p.matches.len(), 2);
    assert_eq!(p.matches[0].line, 16);
    assert_eq!(p.matches[0].conditions.len(), 2);
    assert_eq!(p.matches[1].params, vec![(s("identityfile"), s("~/.ssh/id_ed25519"))]);
}

#[test]
fn host_without_patterns_is_ignored() {
    let p = parse_config_text("Host\n  User x\nHost a\n  User y\n", "f");
    assert_eq!(p.hosts.len(), 1);
    assert_eq!(p.hosts[0].get("user"), Some("y"));
}

fn tree() -> ConfigTree {
    let included = node("/home/u/.ssh/conf.d/work", "Host build\n  User ci\nHost dbx\n  User exact\n", vec![]);
    ConfigTree { root: node("/home/u/.ssh/config", MAIN, vec![included]) }
}

#[test]
fn effective_user_prefers_exact_then_match_rules() {
    let t = tree();
    assert_eq!(effective_user_for_alias(&t, "mitko"), Some(s("carol")));
    assert_eq!(effective_user_for_alias(&t, "web.example.com"), Some(s("wildcard")));
    assert_eq!(effective_user_for_alias(&t, "db1"), Some(s("dbadmin")));
    assert_eq!(effective_user_for_alias(&t, "dbx"), Some(s("exact")));
    assert_eq!(effective_user_for_alias(&t, "build"), Some(s("ci")));
    assert_eq!(effective_user_for_alias(&t, "unknown"), None);
}

#[test]
fn aliases_are_concrete_sorted_and_unique() {
    let dup = node("/x", "Host b a\nHost a [ab]x c*\n", vec![]);
    let t = ConfigTree { root: node("/root", "Host z a\n", vec![dup]) };
    assert_eq!(list_aliases(&t), vec![s("a"), s("b"), s("z")]);
    assert_eq!(
        list_aliases(&tree()),
        vec![s("build"), s("dbx"), s("mitko"), s("mitko.example.com")]
    );
}

#[test]
fn wildcards_match_like_a_shell() {
    assert!(glob_match("*.example.com", "a.b.example.com"));
    assert!(!glob_match("*.example.com", "example.com"));
    assert!(glob_match("db?", "db1"));
    assert!(!glob_match("db?", "db"));
    assert!(glob_match("*", ""));
    assert!(glob_match("a*b*c", "aXXbYYc"));
    assert!(!glob_match("a*b*c", "aXXbYY"));
    assert!(glob_match("", ""));
    assert!(!glob_match("", "a"));
}

#[test]
fn glob_patterns_are_recognised() {
    assert!(is_glob_pattern("a*"));
    assert!(is_glob_pattern("a?"));
    assert!(is_glob_pattern("host[12]"));
    assert!(!is_glob_pattern("host[]"));
    assert!(!is_glob_pattern("plain.example.com"));
    assert!(!is_glob_pattern("x]["));
}

#[test]
fn parameter_lookup_ignores_case() {
    let h = HostEntry {
        patterns: vec![s("a")],
        params: vec![(s("user"), s("two")), (s("port"), s("22"))],
        source: s("f"),
        line: 1,
    };
    assert_eq!(h.get("User"), Some("two"));
    assert_eq!(h.get("PORT"), Some("22"));
    assert_eq!(h.get("proxyjump"), None);
}

#[test]
fn repeated_parameter_replaces_its_value() {
    let p = parse_config_text("Host a\n  User one\n  Port 22\n  USER two\nMatch all\n  User x\n  User y\n", "f");
    assert_eq!(p.hosts[0].params, vec![(s("user"), s("two")), (s("port"), s("22"))]);
    assert_eq!(p.matches[0].params, vec![(s("user"), s("y"))]);
}

#[test]
fn first_concrete_alias_skips_wildcards() {
    let h = HostEntry {
        patterns: vec![s("*.corp"), s("db[12]"), s("gateway"), s("gw")],
        params: vec![],
        source: s("f"),
        line: 3,
    };
    assert_eq!(slarti::sshcfg::first_concrete_alias(&h), Some("gateway"));
    let g = HostEntry { patterns: vec![s("*")], params: vec![], source: s("f"), line: 1 };
    assert_eq!(slarti::sshcfg::first_concrete_alias(&g), None);
}
