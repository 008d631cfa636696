//! Names, paths, modes, titles: what is shown and what is taken as typed.

use neoshell::browsing::confirm_action_text;
use neoshell::catalog::Catalog;
use neoshell::display::clip_to_width;
use neoshell::display::format_bytes;
use neoshell::display::humanize_file_size;
use neoshell::display::sanitize_remote_text;
use neoshell::display::truncate_middle_to_width;
use neoshell::display::truncate_str;
use neoshell::display::visible_name;
use neoshell::display::visible_path;
use neoshell::history::format_ago;
use neoshell::remote_files::join_remote_path;
use neoshell::remote_files::mode_from_permissions;
use neoshell::remote_files::parse_octal_mode;
use neoshell::remote_files::remote_parent;
use neoshell::remote_files::rename_target;
use neoshell::remote_files::safe_local_basename;
use neoshell::remote_files::valid_remote_name;
use neoshell::remote_files::EntryKind;
use neoshell::remote_files::FileEntry;
use neoshell::state::ConfirmAction;
use neoshell::titles::active_after_removal;
use neoshell::titles::fingerprint;
use neoshell::titles::host_from_title;
use neoshell::titles::reconnecting_title;
use neoshell::titles::ssh_config_key;
use neoshell::titles::title_base;
use neoshell::titles::title_reconnecting;
use neoshell::titles::SshHostConfig;

fn texts(pairs: &[(&str, &str)]) -> Catalog {
    Catalog { entries: pairs.iter().map(|(k, v)| (k.to_string(), v.to_string())).collect() }
}

/// The columns of each character: two for an East Asian one.
fn widths(s: &str) -> Vec<usize> {
    s.chars().map(|c| if (c as u32) >= 0x2e80 { 2 } else { 1 }).collect()
}

fn display_width(s: &str) -> usize {
    widths(s).iter().sum()
}

#[test]
fn safe_local_basename_strips_remote_directory_components() {
    assert_eq!(safe_local_basename("report.tar.gz").as_deref(), Some("report.tar.gz"));
    assert_eq!(safe_local_basename("logs/app.log").as_deref(), Some("app.log"));
    // `..` traversal, and an absolute name that would otherwise replace the
    // download directory outright.
    assert_eq!(safe_local_basename("../../../../tmp/EVIL").as_deref(), Some("EVIL"));
    assert_eq!(safe_local_basename("/Users/victim/.zshrc").as_deref(), Some(".zshrc"));
    for name in ["..\\..\\evil.txt", "a/b/c", "/etc/passwd"] {
        if let Some(base) = safe_local_basename(name) {
            assert!(!base.contains('/') && !base.contains('\\'), "{name:?} produced {base:?}");
        }
    }
}

#[test]
fn safe_local_basename_rejects_degenerate_names() {
    for bad in ["", ".", "..", "/", "foo/..", "a\0b", "a\nb", "a\rb"] {
        assert_eq!(safe_local_basename(bad), None, "should reject {bad:?}");
    }
}

#[test]
fn format_ago_picks_the_largest_whole_unit() {
    assert_eq!(format_ago(0), "0s");
    assert_eq!(format_ago(59), "59s");
    assert_eq!(format_ago(60), "1m");
    assert_eq!(format_ago(3599), "59m");
    assert_eq!(format_ago(3600), "1h");
    assert_eq!(format_ago(86_399), "23h");
    assert_eq!(format_ago(86_400 * 3), "3d");
}

#[test]
fn host_from_title_strips_user_port_and_status() {
    assert_eq!(host_from_title("root@10.0.0.7:22"), "10.0.0.7");
    assert_eq!(host_from_title("deploy@web.example.com:2222 [Reconnecting...1]"), "web.example.com");
    assert_eq!(host_from_title("me@::1:22"), "::1");
}

#[test]
fn octal_modes_are_one_to_four_octal_digits() {
    assert_eq!(parse_octal_mode("755"), Some(0o755));
    assert_eq!(parse_octal_mode(" 0644 "), Some(0o644));
    assert_eq!(parse_octal_mode("4755"), Some(0o4755));
    assert_eq!(parse_octal_mode("7777"), Some(0o7777));
    for bad in ["", "8", "0o755", "75a", "-755", "17777", "rwxr-xr-x"] {
        assert_eq!(parse_octal_mode(bad), None, "{bad:?} must not parse");
    }
}

#[test]
fn ls_mode_strings_prefill_the_chmod_dialog() {
    assert_eq!(mode_from_permissions("drwxr-xr-x"), Some(0o755));
    assert_eq!(mode_from_permissions("-rw-r--r--"), Some(0o644));
    assert_eq!(mode_from_permissions("-rwsr-xr-x"), Some(0o4755));
    assert_eq!(mode_from_permissions("drwxrwsr-x"), Some(0o2775));
    assert_eq!(mode_from_permissions("drwxrwxrwt"), Some(0o1777));
    assert_eq!(mode_from_permissions("-rwSr--r-T"), Some(0o5644));
    // ACL / SELinux markers after the ten mode characters are ignored.
    assert_eq!(mode_from_permissions("-rw-r-----+"), Some(0o640));
    assert_eq!(mode_from_permissions(""), None);
    assert_eq!(mode_from_permissions("total"), None);
    assert_eq!(mode_from_permissions("-rwxq-x---"), None);
}

#[test]
fn remote_names_must_be_one_path_component() {
    // Exactly as typed: spaces at the ends are part of a name.
    assert_eq!(valid_remote_name("  logs  ").as_deref(), Some("  logs  "));
    assert_eq!(valid_remote_name("my file.txt").as_deref(), Some("my file.txt"));
    for bad in ["", "   ", ".", "..", "a/b", "/etc", "../x", "a\0b", "a\nb"] {
        assert_eq!(valid_remote_name(bad), None, "{bad:?} must be refused");
    }
    assert_eq!(join_remote_path("/var/www", "site"), "/var/www/site");
    assert_eq!(join_remote_path("/var/www/", "site"), "/var/www/site");
    assert_eq!(join_remote_path("/", "etc"), "/etc");
}

#[test]
fn remote_text_is_stripped_of_controls_and_capped() {
    assert_eq!(sanitize_remote_text("  Password:\x1b[31m  ", 50), "Password:[31m");
    assert_eq!(sanitize_remote_text("line one\nline two", 50), "line one\nline two");
    let long = "x".repeat(300);
    assert_eq!(sanitize_remote_text(&long, 10), format!("{}...", "x".repeat(10)));
}

#[test]
fn ssh_config_key_mirrors_the_import_dedup() {
    let host = |alias: &str, hostname: &str| SshHostConfig {
        alias: alias.into(),
        hostname: hostname.into(),
        user: "deploy".into(),
        port: 2222,
        identity_file: String::new(),
    };
    assert_eq!(ssh_config_key(&host("web", "10.0.0.7")).as_deref(), Some("deploy@10.0.0.7:2222"));
    // No HostName line: ssh(1) dials the alias itself.
    assert_eq!(ssh_config_key(&host("web", "")).as_deref(), Some("deploy@web:2222"));
    assert_eq!(ssh_config_key(&host("", "")), None);
}

#[test]
fn truncate_str_counts_chars_not_bytes() {
    let s = "Authentication failed (username/password) — 用户名或密码不正确";
    assert!(s.len() > s.chars().count(), "fixture must be multi-byte");
    assert!(s.chars().count() > 48);
    let out = truncate_str(s, 48);
    assert_eq!(out.chars().count(), 48 + 3);
    assert!(out.ends_with("..."));
    // No ellipsis when nothing was dropped.
    assert_eq!(truncate_str(s, s.chars().count()), s);
}

#[test]
fn visible_name_marks_what_would_not_show() {
    assert_eq!(visible_name("project"), "project");
    assert_eq!(visible_name("project "), "project·");
    assert_eq!(visible_name(" project"), "·project");
    assert_eq!(visible_name("pro  ject"), "pro··ject");
    assert_eq!(visible_name("my file.txt"), "my file.txt", "one space inside is a space");
    assert_ne!(visible_name("project "), visible_name("project"));
    // Other whitespace, controls, invisible formatting: escaped.
    assert_eq!(visible_name("pro\u{200B}ject"), "pro\\u{200b}ject");
    assert_eq!(visible_name("a\tb"), "a\\u{9}b");
    assert_eq!(visible_name("a\u{A0}b"), "a\\u{a0}b");
    assert_eq!(visible_name("a\nb"), "a\\u{a}b");
    assert_eq!(visible_name("evil\u{202E}txt.exe"), "evil\\u{202e}txt.exe");
    // A variation selector after ASCII changes nothing on screen.
    assert_eq!(visible_name("project\u{FE0F}"), "project\\u{fe0f}");
    // Chinese names, the interpunct and emoji stay as they are.
    assert_eq!(visible_name("生产 服务器"), "生产 服务器");
    assert_eq!(visible_name("张三·李四"), "张三·李四");
    assert_eq!(visible_name("❤\u{FE0F}.txt"), "❤\u{FE0F}.txt");
    // Each component of a path.
    assert_eq!(visible_path("/srv/project /a"), "/srv/project·/a");
}

#[test]
fn long_names_keep_their_marked_end() {
    let decoy = visible_name("quarterly_report_for_the_board_2024 ");
    let short = truncate_middle_to_width(&decoy, &widths(&decoy), 16);
    assert!(display_width(&short) <= 16, "{short}");
    assert!(short.starts_with("quarter") && short.ends_with('·'), "{short}");
    let long = "年度报告终稿版本确认后归档.docx";
    let cjk = truncate_middle_to_width(long, &widths(long), 16);
    assert!(display_width(&cjk) <= 16, "{cjk}");
    assert!(cjk.starts_with("年度") && cjk.ends_with(".docx") && cjk.contains('…'), "{cjk}");
    assert_eq!(truncate_middle_to_width("a.txt", &widths("a.txt"), 16), "a.txt");
}

#[test]
fn chinese_names_are_cut_to_the_display_width_budget() {
    let name = "华东区生产环境订单数据库主节点";
    assert!(name.chars().count() <= 16 && display_width(name) > 20);
    let (short, cut) = clip_to_width(name, &widths(name), 20);
    assert!(cut);
    assert!(display_width(&short) <= 20, "{short}");
    assert!(short.starts_with("华东区") && short.ends_with('…'), "{short}");
    let (same, cut) = clip_to_width("root@10.0.0.1:22", &widths("root@10.0.0.1:22"), 20);
    assert!(!cut);
    assert_eq!(same, "root@10.0.0.1:22");
}

fn row(name: &str, kind: EntryKind) -> FileEntry {
    FileEntry {
        name: name.into(),
        is_dir: kind == EntryKind::Dir,
        kind,
        size: String::new(),
        permissions: String::new(),
        modified: String::new(),
    }
}

/// The confirmation quotes the exact name and states what the row showed: a
/// decoy file "project " reads differently from the folder "project".
#[test]
fn sftp_confirmations_quote_the_exact_name_and_state_its_kind() {
    let texts = texts(&[
        ("sftp.confirm_delete_named", "Delete the {kind} “{name}”?"),
        ("sftp.confirm_delete_dir_named", "Delete the {kind} “{name}” and all in it?"),
        ("sftp.confirm_delete_link_named", "Delete the {kind} “{name}”, not its target?"),
        ("sftp.confirm_chmod_named", "Set the {kind} “{name}” to {mode}?"),
        ("sftp.kind.file", "file"),
        ("sftp.kind.dir", "folder"),
        ("sftp.kind.symlink", "link"),
        ("sftp.kind.other", "special file"),
    ]);
    let delete = |name: &str, kind: EntryKind| ConfirmAction::SftpDelete {
        session_id: "s".into(),
        dir: "/srv".into(),
        path: join_remote_path("/srv", name),
        entry: row(name, kind),
    };
    let (decoy_q, decoy_path, decoy_marked) =
        confirm_action_text(&delete("project ", EntryKind::File), &texts).expect("a file");
    let (real_q, real_path, real_marked) =
        confirm_action_text(&delete("project", EntryKind::Dir), &texts).expect("a folder");
    assert!(decoy_q.contains("“project·”"), "{decoy_q}");
    assert!(real_q.contains("“project”"), "{real_q}");
    assert_ne!(decoy_q, real_q);
    assert_eq!(decoy_path, "/srv/project·");
    assert_eq!(real_path, "/srv/project");
    assert!(decoy_marked && !real_marked, "the marks are explained when there are some");
    // The kind is stated, in either language.
    assert!(["file", "文件"].iter().any(|k| decoy_q.contains(k)), "{decoy_q}");
    assert!(["folder", "文件夹"].iter().any(|k| real_q.contains(k)), "{real_q}");
    let (link_q, _, _) = confirm_action_text(&delete("l", EntryKind::Symlink), &texts).expect("a link");
    assert_eq!(link_q, "Delete the link “l”, not its target?");
    let chmod = ConfirmAction::SftpChmod {
        session_id: "s".into(),
        dir: "/srv".into(),
        path: "/srv/run.sh".into(),
        entry: row("run.sh", EntryKind::File),
        mode: 0o755,
    };
    let (question, subject, _) = confirm_action_text(&chmod, &texts).expect("a file");
    assert!(question.contains("“run.sh”") && question.contains("0755"), "{question}");
    assert!(["file", "文件"].iter().any(|k| question.contains(k)), "{question}");
    assert_eq!(subject, "/srv/run.sh");
}

#[test]
fn an_unchanged_rename_is_a_no_op() {
    assert_eq!(rename_target("report ", "report "), Ok(None));
    assert_eq!(rename_target("report ", "report"), Ok(Some("report".into())));
    assert_eq!(rename_target("a", " b "), Ok(Some(" b ".into())));
    assert_eq!(rename_target("a\u{7}b", "a\u{7}b"), Ok(None), "even a name it could not type");
    assert_eq!(rename_target("a", "a/b"), Err(()));
    assert_eq!(rename_target("a", "   "), Err(()));
}

#[test]
fn a_failed_connect_leaves_the_active_tab_where_it_was() {
    assert_eq!(active_after_removal(Some(2), 0, 2), Some(1), "[x, A, B] on B");
    assert_eq!(active_after_removal(Some(2), 0, 3), Some(1), "[x, A, B, C] on B, not C");
    assert_eq!(active_after_removal(Some(0), 1, 2), Some(0), "[A, x, B] on A");
    assert_eq!(active_after_removal(Some(1), 1, 2), Some(1), "on the failed one");
    assert_eq!(active_after_removal(Some(2), 2, 2), Some(1));
    assert_eq!(active_after_removal(Some(0), 0, 0), None);
    assert_eq!(active_after_removal(None, 0, 3), None);
}

#[test]
fn the_reconnect_marker_is_translated_and_still_parsed() {
    let base = "deploy@web.example.com:2222";
    for marker in ["{title} [Reconnecting...{n}]", "{title} [重新连接中…{n}]"] {
        let texts = texts(&[("tab.reconnecting", marker)]);
        let title = reconnecting_title(base, 3, &texts);
        assert!(title.starts_with(&format!("{base} [")), "{title}");
        assert!(title.contains('3'), "{title}");
        assert_eq!(title_base(&title), base);
        assert!(title_reconnecting(&title));
        assert!(!title_reconnecting(base));
        assert_eq!(host_from_title(&title), "web.example.com");
    }
}

/// A base may hold braces of its own.
#[test]
fn the_reconnect_marker_comes_off_a_base_with_braces() {
    let texts = texts(&[("tab.reconnecting", "{title} [Reconnecting...{n}]")]);
    for base in ["{title}@web:22", "a{@web:22", "{n}@web:22", "web{", "web "] {
        let title = reconnecting_title(base, 7, &texts);
        assert_eq!(title, format!("{base} [Reconnecting...7]"));
        assert_eq!(title_base(&title), base);
        assert_eq!(title_base(base), base);
    }
}

/// One decimal, as a formatted float would give it.
#[test]
fn sizes_read_as_a_formatted_number_would() {
    for bytes in [
        0u64,
        1,
        1023,
        1024,
        1025,
        1075,
        1076,
        1536,
        1280,
        1331,
        10_000,
        1_048_575,
        1_048_576,
        1_048_577,
        5_000_000,
        1_073_741_824,
        1_073_741_825,
        7_516_192_768,
        123_456_789_012,
    ] {
        let b = bytes as f64;
        let want = if bytes > 1_073_741_824 {
            format!("{:.1} GB", b / 1_073_741_824.0)
        } else if bytes > 1_048_576 {
            format!("{:.1} MB", b / 1_048_576.0)
        } else if bytes > 1024 {
            format!("{:.1} KB", b / 1024.0)
        } else {
            format!("{} B", bytes)
        };
        assert_eq!(format_bytes(bytes), want, "{bytes}");
    }
    assert_eq!(humanize_file_size("2048"), "2.0 KB");
    assert_eq!(humanize_file_size(" 1024 "), "1.0 KB");
    assert_eq!(humanize_file_size("1099511627776"), "1.0 TB");
    assert_eq!(humanize_file_size("4.0K"), "4.0K");
}

#[test]
fn the_parent_of_the_root_is_the_root() {
    assert_eq!(remote_parent("/home/u/app"), "/home/u");
    assert_eq!(remote_parent("/home"), "/");
    assert_eq!(remote_parent("/"), "/");
}

#[test]
fn fingerprints_tell_messages_apart() {
    assert_eq!(fingerprint("Connection refused"), fingerprint("Connection refused"));
    assert_ne!(fingerprint("Connection refused"), fingerprint("connection refused"));
    assert_ne!(fingerprint(""), fingerprint(" "));
}
