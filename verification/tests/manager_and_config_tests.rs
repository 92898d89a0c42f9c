use m_ftracert::commands::{
    add_blacklist_rule, add_match_rule, apply_frida_config, attach_to_process,
    check_frida_installation, clear_trace_events, detach_from_process, find_process,
    get_blacklist_rules, get_match_rules, get_process_list, get_tracer_status, record_refresh,
    remove_blacklist_rule, remove_match_rule, set_frida_config,
};
use m_ftracert::config_storage::{migrate_legacy_rules, AppConfig};
use m_ftracert::event_parser::new_log_event;
use m_ftracert::frida_manager::{
    frida_path_from, frida_ps_candidate_path, frida_ps_file_name, frida_ps_result,
    missing_frida_ps_message, on_windows, FridaManager,
};
use m_ftracert::models::{BlacklistRule, FridaConfig, MatchRule, Process, TracerStatus};
use m_ftracert::text::{decimal_text, parse_u32_exec};

fn config(path: Option<&str>, device: Option<&str>) -> FridaConfig {
    FridaConfig {
        frida_path: path.map(|s| s.to_string()),
        device_id: device.map(|s| s.to_string()),
        spawn_mode: false,
    }
}

fn proc_(pid: u32, name: &str) -> Process {
    Process { pid, name: name.to_string(), package: Some(name.to_string()) }
}

#[test]
fn default_config_blacklists_framework_classes() {
    let c = AppConfig::default();
    assert_eq!(c.frida_config, config(None, Some("usb")));
    assert!(c.match_rules.is_empty());
    let patterns: Vec<&str> = c.blacklist_rules.iter().map(|r| r.pattern.as_str()).collect();
    assert_eq!(
        patterns,
        vec!["android.view.*", "android.widget.*", "android.graphics.*", "java.lang.String"]
    );
    assert!(c.blacklist_rules.iter().all(|r| r.rule_type == "match"));
}

#[test]
fn legacy_rules_lose_their_prefix() {
    let mut c = AppConfig {
        frida_config: config(None, None),
        match_rules: vec![
            MatchRule { pattern: "E:com.a.*".to_string(), rule_type: "regex".to_string() },
            MatchRule { pattern: "com.b.*".to_string(), rule_type: "exact".to_string() },
            MatchRule { pattern: "E:E:x".to_string(), rule_type: "regex".to_string() },
        ],
        blacklist_rules: vec![BlacklistRule {
            pattern: "E:java.*".to_string(),
            rule_type: "regex".to_string(),
        }],
    };
    migrate_legacy_rules(&mut c);
    assert_eq!(c.match_rules[0], MatchRule { pattern: "com.a.*".to_string(), rule_type: "match".to_string() });
    assert_eq!(c.match_rules[1], MatchRule { pattern: "com.b.*".to_string(), rule_type: "exact".to_string() });
    assert_eq!(c.match_rules[2].pattern, "E:x");
    assert_eq!(c.blacklist_rules[0].pattern, "java.*");
    let before = AppConfig::default();
    let mut after = AppConfig::default();
    migrate_legacy_rules(&mut after);
    assert_eq!(before, after);
}

#[test]
fn custom_frida_path_wins() {
    let m = FridaManager::new(config(Some("/opt/frida/bin/frida"), None));
    assert_eq!(m.get_frida_path(), Ok("/opt/frida/bin/frida".to_string()));
    assert!(m.is_available());
    assert_eq!(
        frida_path_from(&config(Some(""), None), None),
        Err("Frida not found in PATH".to_string())
    );
    assert_eq!(
        frida_path_from(&config(Some(""), None), Some("/usr/bin/frida".to_string())),
        Ok("/usr/bin/frida".to_string())
    );
}

#[test]
fn frida_ps_is_looked_for_beside_frida() {
    let m = FridaManager::new(config(Some("/nonexistent-dir/frida"), None));
    let expected = format!(
        "frida-ps not found at: {:?}. Please make sure frida-tools is installed.",
        std::path::Path::new("/nonexistent-dir").join(frida_ps_file_name(on_windows()))
    );
    assert_eq!(m.get_frida_ps_path(), Err(expected));
    let root = FridaManager::new(config(Some("/"), None));
    assert_eq!(root.get_frida_ps_path(), Err("Invalid frida path".to_string()));
    assert_eq!(frida_ps_file_name(true), "frida-ps.exe");
    assert_eq!(frida_ps_file_name(false), "frida-ps");
    assert_eq!(
        missing_frida_ps_message("\"x\""),
        "frida-ps not found at: \"x\". Please make sure frida-tools is installed."
    );
}

#[test]
fn command_lines_name_the_device() {
    let usb = FridaManager::new(config(None, None));
    assert_eq!(usb.frida_ps_args(), vec!["-U", "-a"]);
    assert_eq!(usb.frida_args(4321, "/tmp/s.js"), vec!["-U", "-p", "4321", "-l", "/tmp/s.js"]);
    let u = FridaManager::new(config(None, Some("U")));
    assert_eq!(u.frida_ps_args(), vec!["-U", "-a"]);
    let remote = FridaManager::new(config(None, Some("emulator-5554")));
    assert_eq!(remote.frida_ps_args(), vec!["-D", "emulator-5554", "-a"]);
    assert_eq!(remote.frida_args(0, "s.js"), vec!["-D", "emulator-5554", "-p", "0", "-l", "s.js"]);
}

#[test]
fn update_config_replaces_it() {
    let mut m = FridaManager::new(config(None, None));
    m.update_config(config(Some("/x/frida"), Some("tcp")));
    assert_eq!(check_frida_installation(&m), config(Some("/x/frida"), Some("tcp")));
}

#[test]
fn decimal_text_reads_back() {
    for n in [0u32, 7, 10, 99, 1234, 4294967295] {
        let s = decimal_text(n);
        assert_eq!(s, n.to_string());
        let cs: Vec<char> = s.chars().collect();
        assert_eq!(parse_u32_exec(&cs), Some(n));
    }
    let plus: Vec<char> = "+0012".chars().collect();
    assert_eq!(parse_u32_exec(&plus), Some(12));
    for bad in ["", "+", "-1", "1a", "4294967296", "٣"] {
        let cs: Vec<char> = bad.chars().collect();
        assert_eq!(parse_u32_exec(&cs), None, "{}", bad);
    }
}

#[test]
fn rules_are_added_and_removed() {
    let fc = config(None, Some("usb"));
    let mut rules: Vec<MatchRule> = Vec::new();
    let blacklist = vec![BlacklistRule { pattern: "java.*".to_string(), rule_type: "match".to_string() }];
    let saved = add_match_rule(&mut rules, "com.a.*".to_string(), "match".to_string(), &fc, &blacklist);
    assert_eq!(saved.match_rules, rules);
    assert_eq!(saved.blacklist_rules, blacklist);
    assert_eq!(saved.frida_config, fc);
    let before = rules.clone();
    add_match_rule(&mut rules, "com.b.*".to_string(), "match".to_string(), &fc, &blacklist);
    assert_eq!(remove_match_rule(&mut rules, 5, &fc, &blacklist), Err("Index out of bounds".to_string()));
    assert_eq!(rules.len(), 2);
    let saved = remove_match_rule(&mut rules, 1, &fc, &blacklist).expect("removed");
    assert_eq!(rules, before);
    assert_eq!(saved.match_rules, before);
    assert_eq!(get_match_rules(&rules), rules);
}

#[test]
fn blacklist_rules_are_added_and_removed() {
    let fc = config(None, None);
    let matches = vec![MatchRule { pattern: "com.a.*".to_string(), rule_type: "match".to_string() }];
    let mut rules: Vec<BlacklistRule> = Vec::new();
    let saved = add_blacklist_rule(&mut rules, "x.*".to_string(), "match".to_string(), &fc, &matches);
    assert_eq!(saved.blacklist_rules, rules);
    assert_eq!(saved.match_rules, matches);
    assert_eq!(get_blacklist_rules(&rules), rules);
    assert_eq!(remove_blacklist_rule(&mut rules, 1, &fc, &matches), Err("Index out of bounds".to_string()));
    assert!(remove_blacklist_rule(&mut rules, 0, &fc, &matches).is_ok());
    assert!(rules.is_empty());
}

#[test]
fn set_frida_config_checks_the_path() {
    let mut m = FridaManager::new(config(None, Some("usb")));
    let r = set_frida_config(&mut m, Some("/no/such/frida".to_string()), "tcp".to_string(), &vec![], &vec![]);
    assert_eq!(r, Err("Frida path does not exist: /no/such/frida".to_string()));
    assert_eq!(m.config, config(None, Some("usb")));
    let saved = set_frida_config(&mut m, Some(String::new()), "tcp".to_string(), &vec![], &vec![]).expect("ok");
    assert_eq!(m.config, config(Some(""), Some("tcp")));
    assert_eq!(saved.frida_config, m.config);
    let saved = set_frida_config(&mut m, None, "usb".to_string(), &vec![], &vec![]).expect("ok");
    assert_eq!(saved.frida_config, config(None, Some("usb")));
}

#[test]
fn attach_needs_a_listed_process_and_rules() {
    let list = vec![proc_(1, "one"), proc_(2, "two"), proc_(2, "dup")];
    let rules = vec![MatchRule { pattern: "com.a.*".to_string(), rule_type: "match".to_string() }];
    let mut status = TracerStatus::initial(true);
    assert_eq!(attach_to_process(&list, 9, &rules, &vec![], &mut status), Err("Process not found".to_string()));
    let err = attach_to_process(&list, 1, &vec![], &vec![], &mut status).unwrap_err();
    assert!(err.starts_with("[!] No match rules configured!"));
    assert!(err.ends_with("Example:\n  com.zj.wuaipojie2023_1.*"));
    assert_eq!(status, TracerStatus::initial(true));
    let script = attach_to_process(&list, 2, &rules, &vec![], &mut status).expect("script");
    assert!(script.contains(r#"var matchRegEx = ["M:com.a.*"];"#));
    assert_eq!(status.status, "CONNECTING");
    assert_eq!(status.target_process, Some(proc_(2, "two")));
    status.mark_attached();
    assert_eq!(status.status, "ATTACHED");
    assert_eq!(find_process(&list, 2), Some(proc_(2, "two")));
    assert_eq!(get_process_list(&list), list);
}

#[test]
fn detach_returns_to_start() {
    let mut status = TracerStatus::initial(false);
    status.begin_attach(proc_(3, "three"));
    status.events_count = 17;
    assert_eq!(detach_from_process(&mut status), "Detached successfully");
    assert_eq!(status, TracerStatus::initial(false));
    detach_from_process(&mut status);
    assert_eq!(status, TracerStatus::initial(false));
}

#[test]
fn clearing_events_resets_the_count() {
    let mut events = vec![new_log_event("a".to_string()), new_log_event("b".to_string())];
    let mut status = TracerStatus::initial(true);
    status.events_count = 2;
    clear_trace_events(&mut events, &mut status);
    assert!(events.is_empty());
    assert_eq!(status.events_count, 0);
    assert_eq!(status.status, "DETACHED");
}

#[test]
fn status_reports_availability_of_configured_frida() {
    let m = FridaManager::new(config(Some("/opt/frida"), None));
    let mut status = TracerStatus::initial(false);
    let shown = get_tracer_status(&mut status, &m);
    assert!(shown.frida_available);
    assert_eq!(shown, status);
}

#[test]
fn apply_frida_config_decides_on_the_disk_check() {
    let mut m = FridaManager::new(config(None, Some("usb")));
    let refused = apply_frida_config(&mut m, Some("/x/frida".to_string()), "tcp".to_string(), false, &vec![], &vec![]);
    assert_eq!(refused, Err("Frida path does not exist: /x/frida".to_string()));
    assert_eq!(m.config, config(None, Some("usb")));
    let rules = vec![MatchRule { pattern: "a.*".to_string(), rule_type: "match".to_string() }];
    let saved = apply_frida_config(&mut m, Some("/x/frida".to_string()), "tcp".to_string(), true, &rules, &vec![])
        .expect("ok");
    assert_eq!(m.config, config(Some("/x/frida"), Some("tcp")));
    assert_eq!(saved.frida_config, m.config);
    assert_eq!(saved.match_rules, rules);
    let empty = apply_frida_config(&mut m, Some(String::new()), "usb".to_string(), false, &vec![], &vec![]);
    assert!(empty.is_ok());
    assert_eq!(m.config, config(Some(""), Some("usb")));
}

#[test]
fn frida_ps_candidate_and_verdict() {
    let w = on_windows();
    let c = frida_ps_candidate_path("/x/frida", w).expect("candidate");
    assert_eq!(c, std::path::Path::new("/x").join(frida_ps_file_name(w)).to_string_lossy().to_string());
    assert!(c.ends_with(frida_ps_file_name(w)));
    assert_eq!(frida_ps_candidate_path("", w), None);
    assert_eq!(frida_ps_result(None, true), Err("Invalid frida path".to_string()));
    assert_eq!(frida_ps_result(Some(c.clone()), true), Ok(c.clone()));
    assert_eq!(
        frida_ps_result(Some("/x/frida-ps".to_string()), false),
        Err("frida-ps not found at: \"/x/frida-ps\". Please make sure frida-tools is installed.".to_string())
    );
}

#[test]
fn bare_frida_name_looks_in_the_working_directory() {
    if !on_windows() && !std::path::Path::new("frida-ps").exists() {
        let m = FridaManager::new(config(Some("frida"), None));
        assert_eq!(
            m.get_frida_ps_path(),
            Err("frida-ps not found at: \"frida-ps\". Please make sure frida-tools is installed.".to_string())
        );
    }
}

#[test]
fn attached_tracer_stays_attached_until_detached() {
    let m = FridaManager::new(config(Some("/opt/frida"), None));
    let mut status = TracerStatus::initial(false);
    let mut events = vec![new_log_event("a".to_string())];
    status.begin_attach(proc_(7, "seven"));
    status.mark_attached();
    clear_trace_events(&mut events, &mut status);
    let shown = get_tracer_status(&mut status, &m);
    assert_eq!(shown.status, "ATTACHED");
    assert_eq!(status.status, "ATTACHED");
    assert_eq!(status.target_process, Some(proc_(7, "seven")));
    detach_from_process(&mut status);
    assert_eq!(status, TracerStatus::initial(true));
}

#[test]
fn stored_list_is_the_last_listing() {
    let mut stored: Vec<Process> = Vec::new();
    let first = vec![proc_(1, "one"), proc_(2, "two")];
    assert_eq!(record_refresh(&mut stored, Err("frida-ps failed: x".to_string())), Err("frida-ps failed: x".to_string()));
    assert!(get_process_list(&stored).is_empty());
    assert_eq!(record_refresh(&mut stored, Ok(first.clone())), Ok(first.clone()));
    assert_eq!(get_process_list(&stored), first);
    assert!(record_refresh(&mut stored, Err("No processes found. Make sure frida-server is running.".to_string())).is_err());
    assert_eq!(get_process_list(&stored), first);
    let second = vec![proc_(3, "three")];
    assert_eq!(record_refresh(&mut stored, Ok(second.clone())), Ok(second.clone()));
    assert_eq!(get_process_list(&stored), second);
}
