//! Forms, saved lists, the sidebar and the palette.

use std::cmp::Ordering;

use neoshell::catalog::Catalog;
use neoshell::connections::connection_order;
use neoshell::connections::ConnectionInfo;
use neoshell::forms::form_port;
use neoshell::forms::forward_lines;
use neoshell::forms::opened_connection_form;
use neoshell::forms::parse_port;
use neoshell::forms::proxy_form_for;
use neoshell::forms::proxy_form_pristine;
use neoshell::forms::scrub_form_secrets;
use neoshell::forms::scrub_list_secrets;
use neoshell::forms::snippet_form_pristine;
use neoshell::forms::tunnel_config;
use neoshell::forms::tunnel_form_for;
use neoshell::forms::tunnel_form_pristine;
use neoshell::forms::ConnectionFormData;
use neoshell::forms::ProxyConfig;
use neoshell::forms::ProxyFormData;
use neoshell::forms::ProxyType;
use neoshell::forms::TunnelConfig;
use neoshell::forms::TunnelFormData;
use neoshell::groups::connection_matches;
use neoshell::groups::prune_collapsed_groups;
use neoshell::groups::sidebar_groups;
use neoshell::lettercase::lowercase;
use neoshell::lettercase::search_fold;
use neoshell::names::NameSet;
use neoshell::palette::build_palette_items;
use neoshell::palette::fuzzy_score;
use neoshell::palette::PaletteItem;
use neoshell::palette::PALETTE_MAX;
use neoshell::settings::Snippet;
use neoshell::state::Message;

fn texts() -> Catalog {
    let pairs = [
        ("sidebar.ungrouped", "Ungrouped"),
        ("sidebar.collapse_all", "Collapse all groups"),
        ("sidebar.expand_all", "Expand all groups"),
        ("palette.act.collapse_group", "Collapse {name}"),
        ("palette.act.expand_group", "Expand {name}"),
        ("form.err.port", "“{port}” is no port"),
    ];
    Catalog { entries: pairs.iter().map(|(k, v)| (k.to_string(), v.to_string())).collect() }
}

fn groups_of(names: &[&str]) -> NameSet {
    NameSet::of(names.iter().map(|s| s.to_string()).collect())
}

fn sorted(set: &NameSet) -> Vec<String> {
    let mut names = set.names();
    names.sort();
    names
}

fn sidebar_conn(id: &str, name: &str, group: &str) -> ConnectionInfo {
    ConnectionInfo {
        id: id.into(),
        name: name.into(),
        host: "10.0.0.1".into(),
        port: 22,
        username: "root".into(),
        auth_type: "password".into(),
        group: group.into(),
        color: String::new(),
        proxy_id: None,
    }
}

fn snippet(body: &str) -> Snippet {
    Snippet { id: body.to_string(), name: body.to_string(), body: body.to_string() }
}

#[test]
fn locking_scrubs_plaintext_secrets_out_of_open_forms() {
    let mut conn = ConnectionFormData {
        name: "prod".into(),
        host: "10.0.0.1".into(),
        username: "root".into(),
        password: "hunter2".into(),
        passphrase: "keypass".into(),
        private_key: "/home/me/.ssh/id_ed25519".into(),
        ..ConnectionFormData::blank()
    };
    let mut proxy = ProxyFormData {
        name: "bastion".into(),
        password: "proxypw".into(),
        passphrase: "proxypass".into(),
        private_key: "/home/me/.ssh/jump".into(),
        ..ProxyFormData::blank()
    };
    let mut tunnel = TunnelFormData {
        name: "db".into(),
        password: "tunnelpw".into(),
        passphrase: "tunnelpass".into(),
        private_key: "/home/me/.ssh/tunnel".into(),
        forwards_text: "5432:127.0.0.1:5432".into(),
        ..TunnelFormData::blank()
    };

    scrub_form_secrets(&mut conn, &mut proxy, &mut tunnel);

    for secret in [
        &conn.password,
        &conn.passphrase,
        &proxy.password,
        &proxy.passphrase,
        &tunnel.password,
        &tunnel.passphrase,
    ] {
        assert!(secret.is_empty(), "a secret survived the lock: {secret:?}");
    }
    // Non-secret fields are left alone so re-unlocking does not throw the
    // user's half-finished form away. A private-key *path* is not a secret.
    assert_eq!(conn.host, "10.0.0.1");
    assert_eq!(conn.private_key, "/home/me/.ssh/id_ed25519");
    assert_eq!(proxy.name, "bastion");
    assert_eq!(proxy.private_key, "/home/me/.ssh/jump");
    assert_eq!(tunnel.forwards_text, "5432:127.0.0.1:5432");
    assert_eq!(tunnel.private_key, "/home/me/.ssh/tunnel");
}

/// The forward rules that the edit form renders are read again on save, so the
/// text it produces has to survive the round trip: the rules of every kind.
#[test]
fn tunnel_form_renders_forwards_in_parseable_syntax() {
    let rules: Vec<String> =
        vec!["8080:10.0.0.5:80".into(), "R:3000:0.0.0.0:8080".into(), "D:1080".into()];
    let saved = TunnelConfig { forwards: rules.clone(), ..saved_tunnel() };
    // Exactly what opening the form puts in `forwards_text`.
    let form = tunnel_form_for(Some(&saved));
    let reparsed = forward_lines(&form.forwards_text);
    assert_eq!(reparsed, rules, "saving would have rewritten the rules");
    assert_eq!(tunnel_config(&form, "t1".into(), 22, reparsed).forwards, rules);
}

fn saved_proxy() -> ProxyConfig {
    ProxyConfig {
        id: "p1".into(),
        name: "jump".into(),
        proxy_type: ProxyType::SshBastion,
        host: "bastion.example".into(),
        port: 22,
        username: Some("ops".into()),
        password: Some("s3cret".into()),
        auth_type: Some("password".into()),
        private_key: None,
        passphrase: None,
    }
}

fn saved_tunnel() -> TunnelConfig {
    TunnelConfig {
        id: "t1".into(),
        name: "db".into(),
        ssh_host: "jump.example".into(),
        ssh_port: 22,
        username: "ops".into(),
        auth_type: "password".into(),
        password: Some("tunnelpw".into()),
        private_key: None,
        passphrase: None,
        forwards: vec!["R:3000:0.0.0.0:8080".into()],
        auto_start: false,
    }
}

#[test]
fn esc_only_puts_away_a_form_nothing_was_typed_into() {
    // Connection form, as a new one opens.
    let opened = || ConnectionFormData {
        port: "22".into(),
        auth_type: "password".into(),
        ..ConnectionFormData::blank()
    };
    let baseline = opened_connection_form(&opened());
    assert!(opened().same_as(&baseline), "untouched: ESC closes it");
    let mut typed = opened();
    typed.password = "hunter2".into();
    assert!(!typed.same_as(&baseline), "a typed password keeps the form open");
    let mut named = opened();
    named.host = "10.0.0.7".into();
    assert!(!named.same_as(&baseline));
    // The baseline never holds a secret, whatever it is built from.
    let from_typed = opened_connection_form(&typed);
    assert!(from_typed.password.is_empty() && from_typed.passphrase.is_empty());

    // Proxy form: a new one, and a saved one opened with its secret.
    let none: Vec<ProxyConfig> = Vec::new();
    assert!(proxy_form_pristine(&proxy_form_for(None), None, &none));
    let mut new_proxy = proxy_form_for(None);
    new_proxy.host = "10.0.0.9".into();
    assert!(!proxy_form_pristine(&new_proxy, None, &none));
    let proxies = vec![saved_proxy()];
    let editing = proxy_form_for(Some(&proxies[0]));
    assert!(proxy_form_pristine(&editing, Some("p1"), &proxies));
    let mut changed_pw = proxy_form_for(Some(&proxies[0]));
    changed_pw.password.push('!');
    assert!(!proxy_form_pristine(&changed_pw, Some("p1"), &proxies));
    // The proxy was deleted underneath the form: it cannot be told, so the
    // form is kept.
    assert!(!proxy_form_pristine(&editing, Some("p1"), &none));

    // Tunnel form.
    let none: Vec<TunnelConfig> = Vec::new();
    assert!(tunnel_form_pristine(&tunnel_form_for(None), None, &none));
    let mut new_tunnel = tunnel_form_for(None);
    new_tunnel.passphrase = "keypass".into();
    assert!(!tunnel_form_pristine(&new_tunnel, None, &none));
    let tunnels = vec![saved_tunnel()];
    let editing = tunnel_form_for(Some(&tunnels[0]));
    assert!(tunnel_form_pristine(&editing, Some("t1"), &tunnels));
    let mut more_rules = tunnel_form_for(Some(&tunnels[0]));
    more_rules.forwards_text.push_str("\n5432:127.0.0.1:5432");
    assert!(!tunnel_form_pristine(&more_rules, Some("t1"), &tunnels));

    // Snippet editor: the new-snippet fields, then a saved snippet.
    let snippets = vec![snippet("uptime")];
    assert!(snippet_form_pristine("", "", None, &snippets));
    assert!(!snippet_form_pristine("", "df -h", None, &snippets));
    assert!(snippet_form_pristine("uptime", "uptime", Some("uptime"), &snippets));
    assert!(!snippet_form_pristine("uptime", "uptime -p", Some("uptime"), &snippets));
}

/// The lock empties the secrets that it scrubs in the buffers that they are in,
/// and takes them out of the decrypted proxy and tunnel lists.
#[test]
fn scrubbed_secrets_keep_their_buffers() {
    let mut conn = ConnectionFormData { password: "hunter2".into(), ..ConnectionFormData::blank() };
    let mut proxy = ProxyFormData { passphrase: "proxypass".into(), ..ProxyFormData::blank() };
    let mut tunnel = TunnelFormData { password: "tunnelpw".into(), ..TunnelFormData::blank() };
    let (buffer, room) = (conn.password.as_ptr(), conn.password.capacity());
    scrub_form_secrets(&mut conn, &mut proxy, &mut tunnel);
    assert_eq!(conn.password.as_ptr(), buffer, "the same buffer, kept");
    assert_eq!(conn.password.capacity(), room);
    assert!(conn.password.is_empty() && proxy.passphrase.is_empty() && tunnel.password.is_empty());

    let mut proxies = vec![ProxyConfig { passphrase: Some("keypass".into()), ..saved_proxy() }];
    let mut tunnels = vec![TunnelConfig { passphrase: Some("tunnelpass".into()), ..saved_tunnel() }];
    scrub_list_secrets(&mut proxies, &mut tunnels);
    assert_eq!((&proxies[0].password, &proxies[0].passphrase), (&None, &None));
    assert_eq!((&tunnels[0].password, &tunnels[0].passphrase), (&None, &None));
    assert_eq!(proxies[0].host, "bastion.example", "only the secrets go");
}

#[test]
fn full_width_ports_are_read_and_bad_ports_refused() {
    assert_eq!(parse_port("２２２２"), Ok(Some(2222)));
    assert_eq!(parse_port("\u{3000}８０８０ "), Ok(Some(8080)));
    assert_eq!(parse_port(" 22 "), Ok(Some(22)));
    assert_eq!(parse_port("65535"), Ok(Some(65535)));
    assert_eq!(parse_port(""), Ok(None));
    assert_eq!(parse_port("\u{3000} "), Ok(None));
    for bad in ["0", "０", "65536", "22a", "+22", "-1", "2 2", "二十二", "２２.５"] {
        assert_eq!(parse_port(bad), Err(()), "{bad:?}");
    }
    assert_eq!(form_port("２２２２", 22, &texts()), Ok(2222));
    assert_eq!(form_port("", 1080, &texts()), Ok(1080), "a blank field takes the default");
    let err = form_port("２２２x", 22, &texts()).expect_err("refused");
    assert!(err.contains("２２２x"), "names what was typed: {err}");
}

#[test]
fn a_group_left_empty_is_forgotten() {
    let conns = vec![sidebar_conn("a", "db", "生产环境"), sidebar_conn("b", "web", "")];
    let mut folded = groups_of(&["生产环境", "", "已删除"]);
    assert!(prune_collapsed_groups(&mut folded, &conns));
    assert_eq!(sorted(&folded), sorted(&groups_of(&["生产环境", ""])));
    assert!(!prune_collapsed_groups(&mut folded, &conns), "nothing more to drop");
    let moved = vec![sidebar_conn("a", "db", "测试"), sidebar_conn("b", "web", "")];
    assert!(prune_collapsed_groups(&mut folded, &moved));
    assert_eq!(sorted(&folded), sorted(&groups_of(&[""])));
}

#[test]
fn search_opens_a_folded_group_holding_a_chinese_match() {
    let conns = vec![
        sidebar_conn("1", "订单数据库主节点", "生产环境"),
        sidebar_conn("2", "web-01", "生产环境"),
        sidebar_conn("3", "构建机", "开发"),
    ];
    let folded = groups_of(&["生产环境"]);
    let groups = sidebar_groups(&conns, "数据库", &folded, &texts());
    assert_eq!(groups.len(), 1);
    assert_eq!(groups[0].key, "生产环境");
    assert!(!groups[0].collapsed, "a search result is never hidden");
    let ids: Vec<&str> = groups[0].conns.iter().map(|c| c.id.as_str()).collect();
    assert_eq!(ids, ["1"]);
    assert_eq!(sorted(&folded), sorted(&groups_of(&["生产环境"])), "the saved state is as it was");
    let all = sidebar_groups(&conns, "", &folded, &texts());
    assert!(all.iter().find(|g| g.key == "生产环境").expect("listed").collapsed);
    assert!(!all.iter().find(|g| g.key == "开发").expect("listed").collapsed);
    assert!(
        sidebar_groups(&conns, "  ", &folded, &texts()).iter().any(|g| g.collapsed),
        "blank is no search"
    );
}

#[test]
fn groups_sort_by_name_with_ungrouped_last() {
    let conns = vec![
        sidebar_conn("1", "a", ""),
        sidebar_conn("2", "b", "生产"),
        sidebar_conn("3", "c", "web"),
        sidebar_conn("4", "d", "开发"),
        sidebar_conn("5", "e", "Api"),
        sidebar_conn("6", "f", "WEB"),
    ];
    let order: Vec<String> =
        sidebar_groups(&conns, "", &NameSet::new(), &texts()).into_iter().map(|g| g.key).collect();
    assert_eq!(order, ["Api", "WEB", "web", "开发", "生产", ""]);
}

#[test]
fn search_matches_chinese_names_and_full_width_letters() {
    let conn = sidebar_conn("1", "生产Web服务器", "华东区");
    for q in ["生产", "web服务", "WEB", "ｗｅｂ", "服务器", "华东", "10.0.0.1"] {
        assert!(connection_matches(&conn, &search_fold(q), &texts()), "{q}");
    }
    for q in ["测试", "生 产", "webs"] {
        assert!(!connection_matches(&conn, &search_fold(q), &texts()), "{q}");
    }
    assert_eq!(search_fold("ＡＢＣ　１２"), "abc 12");
    assert!(fuzzy_score("服务器", "生产Web服务器").is_some());
    assert!(fuzzy_score("ＷＥＢ", "生产Web服务器").is_some());
    assert!(fuzzy_score("测试", "生产Web服务器").is_none());
}

#[test]
fn the_ungrouped_bucket_is_found_by_its_label() {
    let loose = sidebar_conn("1", "db", "");
    let grouped = sidebar_conn("2", "db", "生产");
    let hit = |c: &ConnectionInfo, q: &str| connection_matches(c, &search_fold(q), &texts());
    assert!(hit(&loose, "Ungrouped") || hit(&loose, "未分组"));
    assert!(hit(&loose, "ungroup") || hit(&loose, "未分"));
    assert!(!hit(&grouped, "Ungrouped") && !hit(&grouped, "未分组"));
}

fn connect_ids(items: &[PaletteItem]) -> Vec<String> {
    items
        .iter()
        .filter_map(|it| match &it.msg {
            Message::ConnectTo(id) => Some(id.clone()),
            _ => None,
        })
        .collect()
}

fn row_action_of(it: &PaletteItem) -> Option<String> {
    match &it.msg {
        Message::ShowForm(Some(id))
        | Message::TestConnectionInList(id)
        | Message::CloneConnection(id)
        | Message::DeleteConnection(id) => Some(id.clone()),
        _ => None,
    }
}

#[test]
fn every_matching_connection_stays_reachable_from_the_palette() {
    // Each name is 24 characters longer than the last, which costs it 6 points
    // of fuzzy score: the matches rank apart.
    let conns = |n: usize| -> Vec<ConnectionInfo> {
        (0..n)
            .map(|i| ConnectionInfo {
                id: format!("c{i}"),
                name: format!("web{}", "x".repeat(24 * i)),
                ..sidebar_conn("", "", "")
            })
            .collect()
    };
    let six = conns(6);
    let items = build_palette_items("web", &six, &[], &NameSet::new(), &texts());
    assert!(items.len() <= PALETTE_MAX);
    assert_eq!(connect_ids(&items), ["c0", "c1", "c2", "c3", "c4", "c5"]);
    // Row actions for the best match only, right under it.
    let best = items
        .iter()
        .position(|it| matches!(&it.msg, Message::ConnectTo(id) if id == "c0"))
        .expect("best match listed");
    let actions: Vec<String> = items.iter().filter_map(row_action_of).collect();
    assert_eq!(actions, ["c0", "c0", "c0", "c0"]);
    assert!(items[best + 1..best + 5].iter().all(|it| row_action_of(it).as_deref() == Some("c0")));
    // No query, no row actions.
    assert!(build_palette_items("", &six, &[], &NameSet::new(), &texts())
        .iter()
        .all(|it| row_action_of(it).is_none()));

    // More matches than rows: every row goes to a connection, best first.
    let items = build_palette_items("web", &conns(14), &[], &NameSet::new(), &texts());
    assert_eq!(items.len(), PALETTE_MAX);
    assert_eq!(connect_ids(&items).len(), PALETTE_MAX);
    assert_eq!(connect_ids(&items)[0], "c0");
}

#[test]
fn the_palette_folds_groups() {
    let conns = vec![sidebar_conn("1", "db", "生产环境"), sidebar_conn("2", "web", "")];
    let toggle_of = |items: &[PaletteItem]| {
        items
            .iter()
            .find(|it| matches!(&it.msg, Message::ToggleGroupCollapsed(g) if g == "生产环境"))
            .map(|it| it.label.clone())
    };
    let open = toggle_of(&build_palette_items("生产", &conns, &[], &NameSet::new(), &texts()))
        .expect("offered while open");
    let folded = toggle_of(&build_palette_items("生产", &conns, &[], &groups_of(&["生产环境"]), &texts()))
        .expect("offered while folded");
    assert!(open.contains("生产环境") && folded.contains("生产环境"));
    assert_ne!(open, folded, "collapse, then expand");
    let blank = build_palette_items("", &conns, &[], &NameSet::new(), &texts());
    assert!(!blank.iter().any(|it| matches!(it.msg, Message::ToggleGroupCollapsed(_))));
    let all =
        build_palette_items(&texts().t("sidebar.collapse_all"), &conns, &[], &NameSet::new(), &texts());
    assert!(all.iter().any(|it| matches!(it.msg, Message::SetAllGroupsCollapsed(true))));
}

#[test]
fn connections_keep_one_order_everywhere() {
    let conns = || {
        let mut b = sidebar_conn("3", "db", "生产");
        b.host = "10.0.0.9".into();
        vec![
            sidebar_conn("1", "web", "生产"),
            b,
            sidebar_conn("2", "DB", "生产"),
            sidebar_conn("4", "api", ""),
            sidebar_conn("5", "Build", "开发"),
        ]
    };
    let list = conns();
    let groups = sidebar_groups(&list, "", &NameSet::new(), &texts());
    let ids: Vec<Vec<&str>> =
        groups.iter().map(|g| g.conns.iter().map(|c| c.id.as_str()).collect()).collect();
    assert_eq!(ids, [vec!["5"], vec!["2", "3", "1"], vec!["4"]]);
    let flat: Vec<&str> = ids.concat();

    let mut reversed = conns();
    reversed.reverse();
    let mut in_order = conns();
    in_order.reverse();
    in_order.sort_by(connection_order);
    assert_eq!(in_order.iter().map(|c| c.id.as_str()).collect::<Vec<_>>(), flat);
    assert_eq!(connection_order(&list[0], &list[0]), Ordering::Equal);

    let palette = connect_ids(&build_palette_items("", &reversed, &[], &NameSet::new(), &texts()));
    assert_eq!(palette, flat, "the empty palette lists them as the sidebar does");
}

/// One character can become two.
#[test]
fn letters_are_lowered_as_unicode_has_them() {
    assert_eq!(lowercase("WEB-01"), "web-01");
    assert_eq!(lowercase("İ"), "i\u{307}");
    // Within a word it is the ordinary letter, at its end the final one.
    assert_eq!(lowercase("ΟΔΟΣ"), "οδος");
    assert_eq!(search_fold("ＩＤ"), "id");
    assert_eq!(search_fold("Ｗeb　Server１"), search_fold("Web Server1"));
    assert_eq!(search_fold(&search_fold("Ｗeb　Server１")), "web server1");
    assert_eq!(search_fold("İ").chars().count(), 2, "a letter may give two");
}
