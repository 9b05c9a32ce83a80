use bygge::errors::{Error, Task};
use bygge::manifest::{edition, resolve_entry, Edition, ManifestInfo};
use bygge::names::{contains_str, normalize_crate_name, skip_dep, str_eq};
use bygge::plan::{build, default_overrides};
use bygge::rules::{lookup_override, Override};

#[test]
fn normalize_replaces_every_hyphen() {
    assert_eq!(normalize_crate_name("winapi-util"), "winapi_util");
    assert_eq!(normalize_crate_name("a-b-c"), "a_b_c");
}

#[test]
fn normalize_keeps_plain_names() {
    assert_eq!(normalize_crate_name("libc"), "libc");
    assert_eq!(normalize_crate_name(""), "");
    assert_eq!(normalize_crate_name("already_underscored"), "already_underscored");
}

#[test]
fn skip_matches_substrings() {
    assert!(skip_dep("winapi"));
    assert!(skip_dep("winapi-util"));
    assert!(skip_dep("redox_syscall"));
    assert!(skip_dep("not-redox-really"));
}

#[test]
fn skip_leaves_ordinary_names() {
    assert!(!skip_dep("libc"));
    assert!(!skip_dep("serde"));
    assert!(!skip_dep(""));
    assert!(!skip_dep("winap"));
}

#[test]
fn contains_finds_runs() {
    assert!(contains_str("abcdef", "cde"));
    assert!(contains_str("abc", ""));
    assert!(!contains_str("abc", "abcd"));
    assert!(!contains_str("aab", "ab c"));
}

#[test]
fn str_eq_compares_contents() {
    assert!(str_eq("same", "same"));
    assert!(!str_eq("same", "samё"));
    assert!(!str_eq("short", "shorter"));
}

#[test]
fn task_parses_known_commands() {
    assert!(matches!(Task::try_from("build"), Ok(Task::Build)));
    assert!(matches!(Task::try_from("create"), Ok(Task::Create)));
}

#[test]
fn task_rejects_unknown_commands() {
    let err = Task::try_from("frobnicate").unwrap_err();
    assert_eq!(err.message().as_str(), "invalid command: frobnicate");
    let err = Task::try_from("").unwrap_err();
    assert_eq!(err.message().as_str(), "invalid command: ");
}

#[test]
fn error_carries_its_message() {
    let e = Error::new(String::from("boom"));
    assert_eq!(e.message().as_str(), "boom");
}

#[test]
fn edition_flag_values() {
    assert_eq!(edition(Edition::E2018), "2018");
    assert_eq!(edition(Edition::E2015), "2015");
    assert_eq!(edition(Edition::E2021), "2015");
    assert_eq!(edition(Edition::E2024), "2015");
}

#[test]
fn entry_resolution_prefers_override() {
    let with = ManifestInfo { lib_path: Some(String::from("src/special.rs")), edition: Edition::E2018 };
    assert_eq!(resolve_entry(&with), "src/special.rs");
    let without = ManifestInfo { lib_path: None, edition: Edition::E2015 };
    assert_eq!(resolve_entry(&without), "src/lib.rs");
}

#[test]
fn build_command_line() {
    let cmd = build("my.ninja");
    assert_eq!(cmd, vec!["ninja".to_string(), "-f".to_string(), "my.ninja".to_string()]);
}

#[test]
fn override_table_lookup() {
    let ovs = default_overrides();
    assert_eq!(ovs.len(), 1);
    assert!(lookup_override(&ovs, "libc").is_some());
    assert!(lookup_override(&ovs, "serde").is_none());
    let more = vec![
        Override { name: String::from("x"), flags: String::from("--first") },
        Override { name: String::from("x"), flags: String::from("--second") },
    ];
    assert_eq!(lookup_override(&more, "x").unwrap().as_str(), "--first");
}
