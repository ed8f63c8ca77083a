use kooix_host::hosts::{
    get_hosts_path, merge_hosts, next_write_step, parse_hosts, rebuild_hosts, HostPlatform,
    WriteMethod, WriteStep, MARKER_END, MARKER_START,
};

#[test]
fn parse_marker_literal_example() {
    let input = "1.2.3.4 example.com\n\n# === Kooix Host Manager Start ===\nold\n# === Kooix Host Manager End ===\n";
    let (custom, managed) = parse_hosts(input);
    assert_eq!(custom, "1.2.3.4 example.com");
    assert_eq!(
        managed,
        "# === Kooix Host Manager Start ===\nold\n# === Kooix Host Manager End ==="
    );
}

#[test]
fn parse_without_markers_keeps_everything_trimmed() {
    let (custom, managed) = parse_hosts("  \n127.0.0.1 localhost\n::1 localhost\n\n");
    assert_eq!(custom, "127.0.0.1 localhost\n::1 localhost");
    assert_eq!(managed, "");
}

#[test]
fn parse_orphan_end_marker_keeps_everything() {
    let input = "10.0.0.1 a.test\n# === Kooix Host Manager End ===\n";
    let (custom, managed) = parse_hosts(input);
    assert_eq!(custom, "10.0.0.1 a.test\n# === Kooix Host Manager End ===");
    assert_eq!(managed, "");
}

#[test]
fn parse_unterminated_block_keeps_everything() {
    let input = "\n10.0.0.1 a.test\n# === Kooix Host Manager Start ===\n1.1.1.1 b.test\n";
    let (custom, managed) = parse_hosts(input);
    assert_eq!(
        custom,
        "10.0.0.1 a.test\n# === Kooix Host Manager Start ===\n1.1.1.1 b.test"
    );
    assert_eq!(managed, "");
}

#[test]
fn parse_end_marker_before_start_is_ignored() {
    let input = "# === Kooix Host Manager End ===\nx\n# === Kooix Host Manager Start ===\ny\n# === Kooix Host Manager End ===\nz";
    let (custom, managed) = parse_hosts(input);
    assert_eq!(custom, "# === Kooix Host Manager End ===\nx");
    assert_eq!(
        managed,
        "# === Kooix Host Manager Start ===\ny\n# === Kooix Host Manager End ==="
    );
}

#[test]
fn parse_empty_text() {
    let (custom, managed) = parse_hosts("");
    assert_eq!(custom, "");
    assert_eq!(managed, "");
}

#[test]
fn parse_trims_unicode_whitespace() {
    let (custom, managed) = parse_hosts("\u{3000}\t1.2.3.4 a.test\u{a0}\u{2028}");
    assert_eq!(custom, "1.2.3.4 a.test");
    assert_eq!(managed, "");
}

#[test]
fn parse_keeps_non_ascii_text_before_block() {
    let input = "# 我的条目\n1.2.3.4 a.test  \n# === Kooix Host Manager Start ===\n中\n# === Kooix Host Manager End ===";
    let (custom, managed) = parse_hosts(input);
    assert_eq!(custom, "# 我的条目\n1.2.3.4 a.test");
    assert_eq!(
        managed,
        "# === Kooix Host Manager Start ===\n中\n# === Kooix Host Manager End ==="
    );
}

#[test]
fn merge_exact_layout() {
    let out = merge_hosts("127.0.0.1 localhost \n\n", "\n 1.2.3.4 github.com\n\n");
    assert_eq!(
        out,
        "127.0.0.1 localhost\n\n# === Kooix Host Manager Start ===\n1.2.3.4 github.com\n# === Kooix Host Manager End ===\n"
    );
}

#[test]
fn merge_empty_inputs() {
    let out = merge_hosts("", "");
    assert_eq!(
        out,
        format!("\n\n{}\n\n{}\n", MARKER_START, MARKER_END)
    );
}

#[test]
fn remerge_keeps_custom_region() {
    let h = "127.0.0.1 localhost\n# mine\n\n# === Kooix Host Manager Start ===\nold\n# === Kooix Host Manager End ===\n";
    let (custom, _) = parse_hosts(h);
    for x in ["", "new content", "# === Kooix Host Manager End ===\nodd", "\n\n  9.9.9.9 x.test\n"] {
        let merged = merge_hosts(&custom, x);
        let (again, _) = parse_hosts(&merged);
        assert_eq!(again, custom);
    }
}

#[test]
fn rebuild_replaces_previous_block() {
    let current = "127.0.0.1 localhost\n\n# === Kooix Host Manager Start ===\nold\n# === Kooix Host Manager End ===\n";
    let out = rebuild_hosts(current, "\n# === S ===\n5.5.5.5 s.test\n");
    assert_eq!(
        out,
        "127.0.0.1 localhost\n\n# === Kooix Host Manager Start ===\n# === S ===\n5.5.5.5 s.test\n# === Kooix Host Manager End ===\n"
    );
}

#[test]
fn rebuild_on_file_without_block() {
    let out = rebuild_hosts("127.0.0.1 localhost\n", "1.1.1.1 one.test");
    assert_eq!(
        out,
        "127.0.0.1 localhost\n\n# === Kooix Host Manager Start ===\n1.1.1.1 one.test\n# === Kooix Host Manager End ===\n"
    );
}

#[test]
fn hosts_path_per_platform() {
    assert_eq!(get_hosts_path(HostPlatform::Unix), "/etc/hosts");
    assert_eq!(
        get_hosts_path(HostPlatform::Windows),
        "C:\\Windows\\System32\\drivers\\etc\\hosts"
    );
}

#[test]
fn write_steps_on_unix() {
    assert!(matches!(
        next_write_step(HostPlatform::Unix, WriteMethod::Direct, true, ""),
        WriteStep::Done
    ));
    assert!(matches!(
        next_write_step(HostPlatform::Unix, WriteMethod::Direct, false, "denied"),
        WriteStep::Attempt(WriteMethod::Pkexec)
    ));
    assert!(matches!(
        next_write_step(HostPlatform::Unix, WriteMethod::Pkexec, false, "dismissed"),
        WriteStep::Attempt(WriteMethod::Sudo)
    ));
    match next_write_step(HostPlatform::Unix, WriteMethod::Sudo, false, "bad password") {
        WriteStep::Fail(m) => assert_eq!(m, "sudo 提权失败: bad password"),
        _ => panic!("sudo failure must be final"),
    }
    assert!(matches!(
        next_write_step(HostPlatform::Unix, WriteMethod::Sudo, true, ""),
        WriteStep::Done
    ));
}

#[test]
fn write_steps_on_windows() {
    match next_write_step(HostPlatform::Windows, WriteMethod::Direct, false, "denied") {
        WriteStep::Fail(m) => assert_eq!(m, "无法写入 hosts 文件，请以管理员身份运行程序"),
        _ => panic!("a denied direct write is final on Windows"),
    }
}

#[test]
fn merge_then_parse_round_trip() {
    let custom = "127.0.0.1 localhost\n# 自定义\n\t";
    let body = "\n\n1.2.3.4 github.com\n5.6.7.8 api.github.com\n";
    let merged = merge_hosts(custom, body);
    let (c, m) = parse_hosts(&merged);
    assert_eq!(c, "127.0.0.1 localhost\n# 自定义");
    assert_eq!(
        m,
        format!("{}\n1.2.3.4 github.com\n5.6.7.8 api.github.com\n{}", MARKER_START, MARKER_END)
    );
}
