use m_ftracert::models::{BlacklistRule, MatchRule};
use m_ftracert::processes::{decode_ps_output, parse_process_list, process_ps_output, process_row_exec};
use m_ftracert::script_generator::{
    generate_frida_script, prefixed_pattern, SCRIPT_HEAD, SCRIPT_MIDDLE, SCRIPT_TAIL,
};

fn mrule(p: &str) -> MatchRule {
    MatchRule { pattern: p.to_string(), rule_type: "match".to_string() }
}

fn brule(p: &str) -> BlacklistRule {
    BlacklistRule { pattern: p.to_string(), rule_type: "match".to_string() }
}

#[test]
fn script_lists_prefixed_patterns() {
    let script = generate_frida_script(
        &[mrule("com.zj.wuaipojie2023_1.*"), mrule("M:com.other.*")],
        &[brule("android.view.*")],
    );
    assert!(script.contains(r#"var matchRegEx = ["M:com.zj.wuaipojie2023_1.*","M:com.other.*"];"#));
    assert!(script.contains(r#"var blackRegEx = ["M:android.view.*"];"#));
    assert!(!script.contains("M:M:"));
    assert!(script.starts_with("\nfunction log(text) {\n    var packet = {'cmd': 'log','data': text};"));
    assert!(script.contains("send(\"tracer::\" + JSON.stringify(packet));"));
}

#[test]
fn script_is_template_around_json_lists() {
    let script = generate_frida_script(&[mrule("a")], &[]);
    let expected = format!("{}{}{}{}{}", SCRIPT_HEAD, r#"["M:a"]"#, SCRIPT_MIDDLE, "[]", SCRIPT_TAIL);
    assert_eq!(script, expected);
}

#[test]
fn script_escapes_patterns_as_json() {
    let script = generate_frida_script(&[mrule("a\"b\\c")], &[]);
    assert!(script.contains(r#"var matchRegEx = ["M:a\"b\\c"];"#));
}

#[test]
fn script_template_keeps_regex_escapes() {
    assert!(SCRIPT_HEAD.contains(r".replace(/\./g, '\\.')"));
    assert!(SCRIPT_TAIL.contains("setTimeout(function() {"));
    assert!(SCRIPT_TAIL.ends_with("    });\n}\n"));
    assert_eq!(SCRIPT_MIDDLE, ";\n        var blackRegEx = ");
}

#[test]
fn prefix_is_added_once() {
    assert_eq!(prefixed_pattern(&"x.y".to_string()), "M:x.y");
    assert_eq!(prefixed_pattern(&"M:x.y".to_string()), "M:x.y");
    assert_eq!(prefixed_pattern(&prefixed_pattern(&"".to_string())), "M:");
}

const LISTING: &str = "  PID  Name                 Identifier\r\n-----  -------------------  --------------\n 1234  Gmail                com.google.android.gm\r\n\n   42  Settings\nabc  not a pid\n+7 Plus Sign\n-5 Minus\n4294967296 Too Big\n4294967295   Max  Pid";

#[test]
fn listing_rows_become_processes() {
    let ps = parse_process_list(LISTING);
    let got: Vec<(u32, &str)> = ps.iter().map(|p| (p.pid, p.name.as_str())).collect();
    assert_eq!(
        got,
        vec![
            (1234, "Gmail com.google.android.gm"),
            (42, "Settings"),
            (7, "Plus Sign"),
            (4294967295, "Max Pid"),
        ]
    );
    for p in &ps {
        assert_eq!(p.package.as_deref(), Some(p.name.as_str()));
    }
}

#[test]
fn header_line_is_skipped() {
    assert!(parse_process_list("1 first\n2 second").iter().map(|p| p.pid).eq([2u32]));
    assert!(parse_process_list("").is_empty());
    assert!(parse_process_list("1 only header").is_empty());
}

#[test]
fn row_needs_pid_and_name() {
    let row: Vec<char> = "  99   com.app  ".chars().collect();
    let p = process_row_exec(&row).expect("row");
    assert_eq!(p.pid, 99);
    assert_eq!(p.name, "com.app");
    let lone: Vec<char> = "99".chars().collect();
    assert!(process_row_exec(&lone).is_none());
    let unicode_space: Vec<char> = "5\u{3000}app\u{a0}x".chars().collect();
    assert_eq!(process_row_exec(&unicode_space).expect("row").name, "app x");
}

#[test]
fn failed_run_reports_stderr() {
    let r = process_ps_output(false, b"", b"unable to connect", false);
    assert_eq!(r, Err("frida-ps failed: unable to connect".to_string()));
}

#[test]
fn empty_listing_is_an_error() {
    let r = process_ps_output(true, b"  PID  Name\n", b"", false);
    assert_eq!(r, Err("No processes found. Make sure frida-server is running.".to_string()));
}

#[test]
fn successful_run_lists_processes() {
    let r = process_ps_output(true, b"PID Name\n10 app\n", b"", false).expect("processes");
    assert_eq!(r.len(), 1);
    assert_eq!(r[0].pid, 10);
    assert_eq!(r[0].name, "app");
}

#[test]
fn windows_output_falls_back_to_gbk() {
    let gbk: &[u8] = &[b'1', b' ', 0xBD, 0xF8, 0xB3, 0xCC];
    assert_eq!(decode_ps_output(gbk, true), "1 进程");
    assert_eq!(decode_ps_output("1 进程".as_bytes(), true), "1 进程");
}

#[test]
fn other_platforms_replace_malformed_bytes() {
    let gbk: &[u8] = &[b'1', b' ', 0xBD, 0xF8];
    assert_eq!(decode_ps_output(gbk, false), "1 \u{FFFD}\u{FFFD}");
    assert_eq!(decode_ps_output(b"plain", false), "plain");
}

#[test]
fn printed_row_reads_back() {
    for (pid, name) in [(0u32, "a"), (1234, "com.google.android.gm"), (4294967295, "x.y")] {
        let row: Vec<char> = format!("{} {}", pid, name).chars().collect();
        let p = process_row_exec(&row).expect("row");
        assert_eq!(p.pid, pid);
        assert_eq!(p.name, name);
        assert_eq!(p.package.as_deref(), Some(name));
    }
}

#[test]
fn names_with_space_runs_are_normalised() {
    let row: Vec<char> = "5 My   App".chars().collect();
    assert_eq!(process_row_exec(&row).expect("row").name, "My App");
}

#[test]
fn printed_listing_reads_back() {
    let procs = [(1u32, "init"), (4242, "com.example.app"), (7, "x")];
    let mut listing = String::from(" PID  Name\r\n");
    for (pid, name) in procs {
        listing.push_str(&format!("{} {}\n", pid, name));
    }
    let ps = parse_process_list(&listing);
    let got: Vec<(u32, &str)> = ps.iter().map(|p| (p.pid, p.name.as_str())).collect();
    assert_eq!(got, procs.to_vec());
}

#[test]
fn control_characters_are_escaped_in_lists() {
    let script = generate_frida_script(&[mrule("a\tb"), mrule("c\u{1}")], &[brule("x\ny")]);
    let expected = format!(
        "{}{}{}{}{}",
        SCRIPT_HEAD, r#"["M:a\tb","M:c\u0001"]"#, SCRIPT_MIDDLE, r#"["M:x\ny"]"#, SCRIPT_TAIL
    );
    assert_eq!(script, expected);
}
