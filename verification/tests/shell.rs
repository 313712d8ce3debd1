use hyprsets::shell::{build_exec_command, has_distinct_names, shell_escape};

#[test]
fn shell_escape_handles_quotes() {
    let raw = "O'Reilly & \"Friends\"";
    let escaped = shell_escape(raw);
    assert_eq!(escaped, "'O'\"'\"'Reilly & \"Friends\"'");
}

#[test]
fn build_exec_command_with_cwd_and_env() {
    let env1 = vec![("FOO".to_string(), "bar".to_string())];
    let env2 = vec![("BAZ".to_string(), "qux".to_string())];

    let cmd = build_exec_command("echo $FOO $BAZ", Some("/tmp/work"), &vec![&env1, &env2]);
    assert!(
        cmd.starts_with("cd '/tmp/work' && "),
        "cmd should start with cwd prefix"
    );
    assert!(cmd.contains("FOO='bar'"));
    assert!(cmd.contains("BAZ='qux'"));
    assert!(
        cmd.ends_with("echo $FOO $BAZ"),
        "base command should be appended"
    );
}

#[test]
fn build_exec_command_without_cwd() {
    let cmd = build_exec_command("ls -la", None, &vec![]);
    assert_eq!(cmd, "ls -la");
}

#[test]
fn exec_command_is_quoted_and_ordered() {
    let env1 = vec![("FOO".to_string(), "bar".to_string())];
    let env2 = vec![("BAZ".to_string(), "qux".to_string())];
    let cmd = build_exec_command("run", Some("/tmp/work"), &vec![&env1, &env2]);
    assert_eq!(cmd, "cd '/tmp/work' && FOO='bar' BAZ='qux' run");
}

#[test]
fn exec_command_escapes_embedded_quotes() {
    let env = vec![("MSG".to_string(), "it's".to_string())];
    let cmd = build_exec_command("say", Some("/tmp/o'neil"), &vec![&env]);
    assert_eq!(cmd, "cd '/tmp/o'\"'\"'neil' && MSG='it'\"'\"'s' say");
}

#[test]
fn later_layer_follows_earlier_layer() {
    let base = vec![("A".to_string(), "1".to_string())];
    let over = vec![("A".to_string(), "2".to_string())];
    let cmd = build_exec_command("x", None, &vec![&base, &over]);
    assert_eq!(cmd, "A='1' A='2' x");
}

#[test]
fn shell_escape_of_empty_text() {
    assert_eq!(shell_escape(""), "''");
}

#[test]
fn names_are_distinct_or_not() {
    let pair = |k: &str, v: &str| (k.to_string(), v.to_string());
    assert!(has_distinct_names(&vec![]));
    assert!(has_distinct_names(&vec![pair("A", "1")]));
    assert!(has_distinct_names(&vec![pair("A", "1"), pair("B", "1"), pair("a", "1")]));
    assert!(!has_distinct_names(&vec![pair("A", "1"), pair("B", "2"), pair("A", "3")]));
    assert!(!has_distinct_names(&vec![pair("A", "1"), pair("A", "1")]));
}
