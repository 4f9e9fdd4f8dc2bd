use helix_db::cli::project::{
    after_any_interface, after_localhost, generate_content, should_probe, typescript_interfaces,
    BindResult, HxFile, PortStep,
};
use helix_db::cli::files::select_source_files;
use helix_db::cli::toolchain::cargo_version_ok;
use helix_db::cli::config::config_file_paths;
use helix_db::text::{signed_to_string, unsigned_to_string};
use helix_db::cli::credentials::{
    credentials_are_readable, parse_credentials, parse_key_from_creds, try_parse_credentials,
};
use helix_db::cli::instances::{InstanceInfo, InstanceManager};

fn manager() -> InstanceManager {
    InstanceManager {
        instances_file: "/home/u/.helix/instances.json".to_string(),
        cache_dir: "/home/u/.helix/cached_builds".to_string(),
        logs_dir: "/home/u/.helix/logs".to_string(),
    }
}

fn instance(short_id: u16, id: &str, running: bool) -> InstanceInfo {
    InstanceInfo {
        short_id,
        id: id.to_string(),
        pid: 100 + short_id as u32,
        port: 6969 + short_id,
        started_at: "2024-01-01T00:00:00Z".to_string(),
        available_endpoints: vec!["query_a".to_string()],
        binary_path: format!("/home/u/.helix/cached_builds/{id}"),
        running,
    }
}

fn sample() -> Vec<InstanceInfo> {
    vec![instance(1, "abc-123", false), instance(2, "def-456", true)]
}

#[test]
fn credentials_read_every_known_key() {
    let c = parse_credentials("helix_user_key=abc\nhelix_user_id=u1\nmetrics=true");
    assert_eq!(c.key.as_deref(), Some("abc"));
    assert_eq!(c.user_id.as_deref(), Some("u1"));
    assert_eq!(c.metrics, Some(true));
}

#[test]
fn credentials_keys_ignore_letter_case_and_last_line_wins() {
    let c = parse_credentials("HELIX_USER_KEY=first\nHelix_User_Key=second\nmetrics=false\n");
    assert_eq!(c.key.as_deref(), Some("second"));
    assert_eq!(c.user_id, None);
    assert_eq!(c.metrics, Some(false));
}

#[test]
fn credentials_skip_other_lines() {
    let c = parse_credentials("# comment\nno separator\nother=1\nhelix_user_id=a=b");
    assert_eq!(c.key, None);
    assert_eq!(c.user_id.as_deref(), Some("a=b"));
    assert_eq!(c.metrics, None);
}

#[test]
fn credentials_with_bad_metrics_are_refused() {
    assert!(!credentials_are_readable("metrics=yes"));
    assert!(try_parse_credentials("helix_user_key=k\nmetrics=yes").is_none());
    assert!(credentials_are_readable("metrics=true\r\n"));
    let c = try_parse_credentials("helix_user_key=k\r\n").unwrap();
    assert_eq!(c.key.as_deref(), Some("k"));
}

#[test]
fn key_from_creds_takes_the_first_key_line() {
    assert_eq!(parse_key_from_creds("x=1\nhelix_user_key=a\nhelix_user_key=b"), Some("a"));
    assert_eq!(parse_key_from_creds("HELIX_USER_KEY=v=w"), Some("v=w"));
    assert_eq!(parse_key_from_creds("helix_user_id=a\nmetrics=true"), None);
    assert_eq!(parse_key_from_creds(""), None);
}

#[test]
fn key_lookups_agree_with_full_parse() {
    let text = "helix_user_id=me\nhelix_user_key=secret\nmetrics=true";
    let c = parse_credentials(text);
    assert_eq!(parse_key_from_creds(text), c.key.as_deref());
}

#[test]
fn get_instance_by_number_or_id() {
    let m = manager();
    let list = sample();
    let by_number = m.get_instance(&list, "2").unwrap().unwrap();
    assert_eq!(by_number.id, "def-456");
    let by_id = m.get_instance(&list, "\"abc-123\"").unwrap().unwrap();
    assert_eq!(by_id.short_id, 1);
    assert!(m.get_instance(&list, "zzz").unwrap().is_none());
}

#[test]
fn get_instance_with_unknown_number_fails() {
    let m = manager();
    let list = sample();
    match m.get_instance(&list, "9") {
        Err(e) => assert_eq!(e, "No instance found with id 9"),
        Ok(_) => panic!("expected an error"),
    }
}

#[test]
fn running_instances_sees_any_running() {
    let m = manager();
    assert!(m.running_instances(&sample()));
    assert!(!m.running_instances(&vec![instance(1, "a", false)]));
    assert!(!m.running_instances(&vec![]));
}

#[test]
fn delete_instance_by_number_or_id() {
    let m = manager();
    let mut list = sample();
    assert_eq!(m.delete_instance(&mut list, "1"), Ok(true));
    assert_eq!(list.len(), 1);
    assert_eq!(list[0].id, "def-456");
    assert_eq!(m.delete_instance(&mut list, "nothing"), Ok(false));
    assert_eq!(list.len(), 1);
    assert_eq!(m.delete_instance(&mut list, "def-456"), Ok(true));
    assert!(list.is_empty());
}

#[test]
fn delete_instance_with_unknown_number_fails() {
    let m = manager();
    let mut list = sample();
    assert_eq!(m.delete_instance(&mut list, "7"), Err("No instance found with id 7".to_string()));
    assert_eq!(list.len(), 2);
}

#[test]
fn update_instance_replaces_or_appends() {
    let m = manager();
    let mut list = sample();
    let mut changed = instance(1, "abc-123", true);
    changed.port = 7000;
    m.update_instance(&mut list, &changed);
    assert_eq!(list.len(), 2);
    assert_eq!(list[0].port, 7000);
    assert!(list[0].running);
    m.update_instance(&mut list, &instance(3, "ghi-789", false));
    assert_eq!(list.len(), 3);
    assert_eq!(list[2].id, "ghi-789");
}

#[test]
fn get_after_update_gives_the_record_back() {
    let m = manager();
    let mut list = sample();
    let mut changed = instance(2, "def-456", false);
    changed.pid = 4242;
    m.update_instance(&mut list, &changed);
    let got = m.get_instance(&list, "def-456").unwrap().unwrap();
    assert_eq!(got.pid, 4242);
    assert!(!got.running);
}

#[test]
fn get_after_delete_finds_nothing() {
    let m = manager();
    let mut list = sample();
    assert_eq!(m.delete_instance(&mut list, "abc-123"), Ok(true));
    assert!(m.get_instance(&list, "abc-123").unwrap().is_none());
}

#[test]
fn instance_named_by_number_or_id_gives_the_same_record() {
    let m = manager();
    let list = sample();
    let by_number = m.get_instance(&list, "1").unwrap().unwrap();
    let by_id = m.get_instance(&list, "abc-123").unwrap().unwrap();
    assert_eq!(by_number.id, by_id.id);
    assert_eq!(by_number.pid, by_id.pid);
    assert_eq!(m.get_instance(&list, "+2").unwrap().unwrap().id, "def-456");
}

#[test]
fn config_file_paths_join_the_project_directory() {
    assert_eq!(
        config_file_paths("proj"),
        ("proj/config.hx.json".to_string(), "proj/schema.hx".to_string())
    );
    assert_eq!(
        config_file_paths("proj/"),
        ("proj/config.hx.json".to_string(), "proj/schema.hx".to_string())
    );
    assert_eq!(config_file_paths(""), ("config.hx.json".to_string(), "schema.hx".to_string()));
}

#[test]
fn integer_text_is_decimal() {
    assert_eq!(signed_to_string(0), "0");
    assert_eq!(signed_to_string(-45), "-45");
    assert_eq!(signed_to_string(i128::MIN), i128::MIN.to_string());
    assert_eq!(unsigned_to_string(u128::MAX), u128::MAX.to_string());
    assert_eq!(unsigned_to_string(1007), "1007");
}

#[test]
fn cargo_versions_from_their_output() {
    assert!(cargo_version_ok("cargo 1.88.0 (873a06493 2025-05-10)\n"));
    assert!(cargo_version_ok("cargo 1.90.0-nightly (abc 2025-07-01)"));
    assert!(cargo_version_ok("  cargo\t1.89.2"));
    assert!(!cargo_version_ok("cargo 1.87.1 (a 2025-01-01)"));
    assert!(!cargo_version_ok("cargo 2.0.0"));
    assert!(!cargo_version_ok("cargo"));
    assert!(!cargo_version_ok(""));
    assert!(cargo_version_ok("cargo 1.x.88"));
}

#[test]
fn source_files_of_a_project() {
    let names = |v: &[&str]| v.iter().map(|s| s.to_string()).collect::<Vec<String>>();
    assert_eq!(
        select_source_files(&names(&["schema.hx", "notes.txt", "queries.hx", "config.hx.json"])),
        Ok(vec![0, 2])
    );
    assert_eq!(
        select_source_files(&names(&["queries.hx", "config.hx.json"])),
        Err("No schema file found".to_string())
    );
    assert_eq!(
        select_source_files(&names(&["schema.hx", "queries.hx"])),
        Err("No config.hx.json file found".to_string())
    );
    assert_eq!(
        select_source_files(&names(&["schema.hx", "config.hx.json", "readme.md"])),
        Err("No query files (.hx) found".to_string())
    );
}

#[test]
fn stop_instance_marks_running_instances() {
    let m = manager();
    let mut list = sample();
    assert_eq!(m.stop_instance(&mut list, "2"), Ok(Some(1)));
    assert!(!list[1].running);
    assert_eq!(m.stop_instance(&mut list, "def-456"), Ok(None));
    assert_eq!(m.stop_instance(&mut list, "\"abc-123\""), Ok(None));
    assert_eq!(m.stop_instance(&mut list, "unknown"), Ok(None));
    assert_eq!(m.stop_instance(&mut list, "5"), Err("No instance found with id 5".to_string()));
    list[0].running = true;
    assert_eq!(m.stop_instance(&mut list, "\"abc-123\""), Ok(Some(0)));
    assert!(!list[0].running);
}

#[test]
fn resolve_instance_ids() {
    let m = manager();
    let list = sample();
    assert_eq!(m.resolve_instance_id(&list, "1"), Ok("abc-123".to_string()));
    assert_eq!(m.resolve_instance_id(&list, "xyz"), Ok("xyz".to_string()));
    assert_eq!(m.resolve_instance_id(&list, "3"), Err("No instance found with id 3".to_string()));
}

#[test]
fn register_instance_numbers_new_instances() {
    let m = manager();
    let mut list = sample();
    let r = m.register_instance(
        &mut list,
        "ghi-789".to_string(),
        4321,
        6970,
        "2024-02-02T00:00:00Z".to_string(),
        vec!["a".to_string(), "b".to_string()],
        "/bin/ghi".to_string(),
    );
    assert_eq!(r.short_id, 3);
    assert!(r.running);
    assert_eq!(list.len(), 3);
    assert_eq!(list[2].id, "ghi-789");
    assert_eq!(list[2].available_endpoints, vec!["a".to_string(), "b".to_string()]);
    assert_eq!(m.get_instance(&list, "3").unwrap().unwrap().pid, 4321);
}

#[test]
fn query_files_are_joined_with_newlines() {
    let files = vec![
        HxFile { name: "a.hx".to_string(), content: "QUERY a() =>".to_string() },
        HxFile { name: "b.hx".to_string(), content: "QUERY b() =>".to_string() },
    ];
    let c = generate_content(files).unwrap();
    assert_eq!(c.content, "QUERY a() =>\nQUERY b() =>");
    assert_eq!(c.files.len(), 2);
    assert_eq!(c.files[1].name, "b.hx");
    assert_eq!(generate_content(vec![]).unwrap().content, "");
}

#[test]
fn typescript_interfaces_in_schema_order() {
    let t = typescript_interfaces(
        &vec!["interface User {}\n".to_string()],
        &vec!["interface Follows {}\n".to_string()],
        &vec!["interface Doc {}\n".to_string()],
    );
    assert_eq!(t, "interface User {}\ninterface Follows {}\ninterface Doc {}\n");
}

#[test]
fn port_search_decisions() {
    assert!(should_probe(6969));
    assert!(!should_probe(65535));
    assert_eq!(after_any_interface(6969, BindResult::Bound), PortStep::CheckLocalhost);
    assert_eq!(after_any_interface(6969, BindResult::InUse), PortStep::TryNext(6970));
    assert_eq!(after_any_interface(6969, BindResult::Failed), PortStep::GiveUp);
    assert_eq!(after_localhost(6969, BindResult::Bound), PortStep::Found(6969));
    assert_eq!(after_localhost(65534, BindResult::InUse), PortStep::TryNext(65535));
    assert_eq!(after_localhost(6969, BindResult::Failed), PortStep::GiveUp);
}
