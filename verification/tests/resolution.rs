use sshs::ssh::{resolve, Host};
use sshs::ssh_config::host::{Host as Block, LocalForward};
use sshs::ssh_config::{EntryType, HostVecExt};

fn block(patterns: &[&str], entries: &[(EntryType, &str)]) -> Block {
    let mut b = Block::new(patterns.iter().map(|p| p.to_string()).collect());
    for (kind, value) in entries {
        b.update((*kind, value.to_string()));
    }
    b
}

fn names(hosts: &[Host]) -> Vec<String> {
    hosts.iter().map(|h| h.name.clone()).collect()
}

fn patterns_of(blocks: &[Block]) -> Vec<Vec<String>> {
    blocks.iter().map(|b| b.get_patterns().clone()).collect()
}

fn forward_triples(list: &[LocalForward]) -> Vec<(String, String, String)> {
    list.iter()
        .map(|f| (f.local_port.clone(), f.remote_host.clone(), f.remote_port.clone()))
        .collect()
}

fn records(hosts: &[Host]) -> Vec<String> {
    hosts.iter().map(|h| format!("{:?}", h)).collect()
}

#[test]
fn spread_gives_one_block_for_each_pattern() {
    let blocks = vec![block(&["a", "b", "c"], &[(EntryType::User, "x")])];
    let spread = blocks.spread();
    assert_eq!(patterns_of(&spread), vec![vec!["a"], vec!["b"], vec!["c"]]);
    for b in &spread {
        assert_eq!(b.get(&EntryType::User), Some("x".to_string()));
    }
}

#[test]
fn spread_keeps_entries_before_merge() {
    let blocks = vec![block(&["a", "b", "c"], &[(EntryType::User, "x")])];
    let applied = blocks.apply_patterns();
    assert_eq!(patterns_of(&applied), vec![vec!["a"], vec!["b"], vec!["c"]]);
    for b in &applied {
        assert_eq!(b.get(&EntryType::User), Some("x".to_string()));
        assert_eq!(b.get(&EntryType::Hostname), None);
    }
    let named = applied.apply_name_to_empty_hostname();
    assert_eq!(named[0].get(&EntryType::Hostname), Some("a".to_string()));
    assert_eq!(named[1].get(&EntryType::Hostname), Some("b".to_string()));
    assert_eq!(named[2].get(&EntryType::Hostname), Some("c".to_string()));
}

#[test]
fn spread_keeps_the_place_of_each_block() {
    let blocks = vec![
        block(&["first"], &[]),
        block(&["x", "y"], &[(EntryType::Port, "22")]),
        block(&["last"], &[]),
    ];
    let spread = blocks.spread();
    assert_eq!(
        patterns_of(&spread),
        vec![vec!["first"], vec!["x"], vec!["y"], vec!["last"]]
    );
    assert_eq!(spread[1].get(&EntryType::Port), Some("22".to_string()));
    assert_eq!(spread[2].get(&EntryType::Port), Some("22".to_string()));
    assert_eq!(spread[3].get(&EntryType::Port), None);
}

#[test]
fn spread_copies_forwards_to_each_block() {
    let blocks = vec![block(
        &["a", "b"],
        &[(EntryType::LocalForward, "8888 localhost:9999")],
    )];
    let spread = blocks.spread();
    assert_eq!(spread.len(), 2);
    for b in &spread {
        assert_eq!(
            forward_triples(&b.local_forwards),
            vec![("8888".to_string(), "localhost".to_string(), "9999".to_string())]
        );
    }
}

#[test]
fn spread_keeps_a_block_without_patterns() {
    let blocks = vec![block(&[], &[(EntryType::User, "x")])];
    let spread = blocks.spread();
    assert_eq!(spread.len(), 1);
    assert!(spread[0].get_patterns().is_empty());
    assert_eq!(spread[0].get(&EntryType::User), Some("x".to_string()));
}

#[test]
fn explicit_entry_wins_over_pattern() {
    let blocks = vec![
        block(&["*.example.com"], &[(EntryType::User, "admin")]),
        block(&["db.example.com"], &[(EntryType::User, "root")]),
    ];
    let hosts = resolve(&blocks);
    assert_eq!(hosts.len(), 1);
    assert_eq!(hosts[0].name, "db.example.com");
    assert_eq!(hosts[0].user, Some("root".to_string()));
    assert_eq!(hosts[0].destination, "db.example.com");
}

#[test]
fn pattern_fills_what_is_missing() {
    let blocks = vec![
        block(
            &["*.example.com"],
            &[(EntryType::User, "admin"), (EntryType::Port, "2222")],
        ),
        block(&["db.example.com"], &[(EntryType::User, "root")]),
    ];
    let hosts = resolve(&blocks);
    assert_eq!(hosts.len(), 1);
    assert_eq!(hosts[0].user, Some("root".to_string()));
    assert_eq!(hosts[0].port, Some("2222".to_string()));
}

#[test]
fn first_pattern_block_wins_over_later_one() {
    let blocks = vec![
        block(&["web"], &[]),
        block(&["w*"], &[(EntryType::User, "first")]),
        block(&["*"], &[(EntryType::User, "second"), (EntryType::Port, "22")]),
    ];
    let hosts = resolve(&blocks);
    assert_eq!(names(&hosts), vec!["web"]);
    assert_eq!(hosts[0].user, Some("first".to_string()));
    assert_eq!(hosts[0].port, Some("22".to_string()));
}

#[test]
fn pattern_after_target_is_applied_too() {
    let blocks = vec![
        block(&["db.example.com"], &[]),
        block(&["*.example.com"], &[(EntryType::User, "admin")]),
    ];
    let hosts = resolve(&blocks);
    assert_eq!(names(&hosts), vec!["db.example.com"]);
    assert_eq!(hosts[0].user, Some("admin".to_string()));
}

#[test]
fn pattern_hostname_is_kept_by_defaulting() {
    let blocks = vec![
        block(&["*.corp"], &[(EntryType::Hostname, "gateway.corp")]),
        block(&["api.corp"], &[]),
    ];
    let hosts = resolve(&blocks);
    assert_eq!(names(&hosts), vec!["api.corp"]);
    assert_eq!(hosts[0].destination, "gateway.corp");
}

#[test]
fn pattern_forwards_are_appended() {
    let blocks = vec![
        block(&["*"], &[(EntryType::LocalForward, "1 a:2")]),
        block(&["web"], &[(EntryType::LocalForward, "1 a:2")]),
    ];
    let hosts = resolve(&blocks);
    assert_eq!(names(&hosts), vec!["web"]);
    assert_eq!(
        forward_triples(&hosts[0].local_forwards),
        vec![
            ("1".to_string(), "a".to_string(), "2".to_string()),
            ("1".to_string(), "a".to_string(), "2".to_string())
        ]
    );
}

#[test]
fn question_mark_stands_for_one_character() {
    let blocks = vec![
        block(&["web?"], &[(EntryType::User, "u")]),
        block(&["web1"], &[]),
        block(&["web12"], &[]),
        block(&["web"], &[]),
    ];
    let applied = blocks.apply_patterns();
    assert_eq!(patterns_of(&applied), vec![vec!["web1"], vec!["web12"], vec!["web"]]);
    assert_eq!(applied[0].get(&EntryType::User), Some("u".to_string()));
    assert_eq!(applied[1].get(&EntryType::User), None);
    assert_eq!(applied[2].get(&EntryType::User), None);
}

#[test]
fn dot_in_a_pattern_is_literal() {
    let blocks = vec![
        block(&["a.b*"], &[(EntryType::User, "u")]),
        block(&["a.bc"], &[]),
        block(&["axbc"], &[]),
    ];
    let applied = blocks.apply_patterns();
    assert_eq!(applied[0].get(&EntryType::User), Some("u".to_string()));
    assert_eq!(applied[1].get(&EntryType::User), None);
}

#[test]
fn pattern_must_cover_the_whole_name() {
    let blocks = vec![
        block(&["*.corp"], &[(EntryType::User, "u")]),
        block(&["api.corp.example"], &[]),
    ];
    let applied = blocks.apply_patterns();
    assert_eq!(applied.len(), 1);
    assert_eq!(applied[0].get(&EntryType::User), None);
}

#[test]
fn negated_pattern_covers_the_others() {
    let blocks = vec![
        block(&["!db.example.com"], &[(EntryType::Port, "22")]),
        block(&["db.example.com"], &[]),
        block(&["web.example.com"], &[]),
    ];
    let hosts = resolve(&blocks);
    assert_eq!(names(&hosts), vec!["db.example.com", "web.example.com"]);
    assert_eq!(hosts[0].port, None);
    assert_eq!(hosts[1].port, Some("22".to_string()));
}

#[test]
fn wildcard_blocks_leave_even_without_match() {
    let blocks = vec![
        block(&["*.nowhere"], &[(EntryType::User, "u")]),
        block(&["web"], &[]),
    ];
    let applied = blocks.apply_patterns();
    assert_eq!(patterns_of(&applied), vec![vec!["web"]]);
    assert_eq!(applied[0].get(&EntryType::User), None);
}

#[test]
fn wildcard_does_not_hand_down_to_wildcard() {
    let blocks = vec![
        block(&["*"], &[(EntryType::User, "u")]),
        block(&["web*"], &[(EntryType::Port, "22")]),
        block(&["web1"], &[]),
    ];
    let hosts = resolve(&blocks);
    assert_eq!(names(&hosts), vec!["web1"]);
    assert_eq!(hosts[0].user, Some("u".to_string()));
    assert_eq!(hosts[0].port, Some("22".to_string()));
}

#[test]
fn mixed_block_hands_down_and_keeps_its_plain_name() {
    let blocks = vec![
        block(&["gate", "*.corp"], &[(EntryType::User, "svc")]),
        block(&["api.corp"], &[]),
    ];
    let hosts = resolve(&blocks);
    assert_eq!(names(&hosts), vec!["gate", "api.corp"]);
    assert_eq!(hosts[0].user, Some("svc".to_string()));
    assert_eq!(hosts[1].user, Some("svc".to_string()));
    assert_eq!(hosts[1].destination, "api.corp");
}

#[test]
fn pattern_that_does_not_compile_covers_nothing() {
    let blocks = vec![
        block(&["web[*"], &[(EntryType::User, "u")]),
        block(&["web[1"], &[]),
    ];
    let hosts = resolve(&blocks);
    assert_eq!(names(&hosts), vec!["web[1"]);
    assert_eq!(hosts[0].user, None);
}

#[test]
fn negated_pattern_that_does_not_compile_covers_nothing() {
    let blocks = vec![
        block(&["!web("], &[(EntryType::User, "u")]),
        block(&["db"], &[]),
    ];
    let hosts = resolve(&blocks);
    assert_eq!(names(&hosts), vec!["db"]);
    assert_eq!(hosts[0].user, None);
}

#[test]
fn block_without_hostname_gets_its_name() {
    let hosts = resolve(&vec![block(&["myhost"], &[])]);
    assert_eq!(hosts.len(), 1);
    assert_eq!(hosts[0].name, "myhost");
    assert_eq!(hosts[0].destination, "myhost");
    assert!(hosts[0].aliases.is_empty());
}

#[test]
fn explicit_hostname_stays() {
    let blocks = vec![block(&["myhost"], &[(EntryType::Hostname, "10.0.0.1")])];
    let named = blocks.apply_name_to_empty_hostname();
    assert_eq!(named[0].get(&EntryType::Hostname), Some("10.0.0.1".to_string()));
    assert_eq!(resolve(&blocks)[0].destination, "10.0.0.1");
}

#[test]
fn defaulting_leaves_a_block_without_patterns() {
    let blocks = vec![block(&[], &[(EntryType::User, "x")])];
    let named = blocks.apply_name_to_empty_hostname();
    assert_eq!(named[0].get(&EntryType::Hostname), None);
    let hosts = resolve(&blocks);
    assert_eq!(hosts.len(), 1);
    assert_eq!(hosts[0].name, "");
    assert_eq!(hosts[0].destination, "");
    assert_eq!(hosts[0].user, Some("x".to_string()));
}

#[test]
fn defaulting_does_not_change_its_input() {
    let blocks = vec![block(&["myhost"], &[])];
    let _ = blocks.apply_name_to_empty_hostname();
    assert_eq!(blocks[0].get(&EntryType::Hostname), None);
}

#[test]
fn placeholder_keeps_blocks_apart() {
    let blocks = vec![
        block(
            &["foo"],
            &[(EntryType::Hostname, "h"), (EntryType::ProxyCommand, "nc %h 22")],
        ),
        block(
            &["bar"],
            &[(EntryType::Hostname, "h"), (EntryType::ProxyCommand, "nc %h 22")],
        ),
    ];
    let merged = blocks.merge_same_hosts();
    assert_eq!(patterns_of(&merged), vec![vec!["foo"], vec!["bar"]]);
    let hosts = resolve(&blocks);
    assert_eq!(names(&hosts), vec!["foo", "bar"]);
    assert!(hosts[0].aliases.is_empty());
    assert!(hosts[1].aliases.is_empty());
}

#[test]
fn identical_blocks_merge() {
    let blocks = vec![
        block(
            &["foo"],
            &[(EntryType::Hostname, "h"), (EntryType::ProxyCommand, "nc gate 22")],
        ),
        block(
            &["bar"],
            &[(EntryType::Hostname, "h"), (EntryType::ProxyCommand, "nc gate 22")],
        ),
    ];
    let hosts = resolve(&blocks);
    assert_eq!(hosts.len(), 1);
    assert_eq!(hosts[0].name, "foo");
    assert_eq!(hosts[0].aliases, vec!["bar"]);
    assert_eq!(hosts[0].proxy_command, Some("nc gate 22".to_string()));
}

#[test]
fn defaulted_names_keep_blocks_apart() {
    let blocks = vec![
        block(&["foo"], &[(EntryType::User, "u")]),
        block(&["bar"], &[(EntryType::User, "u")]),
    ];
    let hosts = resolve(&blocks);
    assert_eq!(names(&hosts), vec!["foo", "bar"]);
    assert_eq!(hosts[0].destination, "foo");
    assert_eq!(hosts[1].destination, "bar");
}

#[test]
fn merge_gathers_patterns_and_forwards_in_order() {
    let same = [(EntryType::Hostname, "h"), (EntryType::User, "u")];
    let mut a = block(&["a"], &same);
    a.update((EntryType::LocalForward, "1 x:1".to_string()));
    let other = block(&["other"], &[(EntryType::Hostname, "o")]);
    let mut b = block(&["b"], &same);
    b.update((EntryType::LocalForward, "2 x:2".to_string()));
    let mut c = block(&["c"], &same);
    c.update((EntryType::LocalForward, "3 x:3".to_string()));
    let merged = vec![a, other, b, c].merge_same_hosts();
    assert_eq!(patterns_of(&merged), vec![vec!["a", "b", "c"], vec!["other"]]);
    assert_eq!(
        forward_triples(&merged[0].local_forwards),
        vec![
            ("1".to_string(), "x".to_string(), "1".to_string()),
            ("2".to_string(), "x".to_string(), "2".to_string()),
            ("3".to_string(), "x".to_string(), "3".to_string())
        ]
    );
    assert_eq!(merged[0].get(&EntryType::User), Some("u".to_string()));
    assert!(merged[1].local_forwards.is_empty());
}

#[test]
fn merge_looks_at_entries_only() {
    let mut a = block(&["a"], &[(EntryType::Hostname, "h")]);
    a.update((EntryType::LocalForward, "1 x:1".to_string()));
    let b = block(&["b"], &[(EntryType::Hostname, "h")]);
    let merged = vec![a, b].merge_same_hosts();
    assert_eq!(patterns_of(&merged), vec![vec!["a", "b"]]);
    assert_eq!(merged[0].local_forwards.len(), 1);
}

#[test]
fn merge_needs_the_same_keywords() {
    let blocks = vec![
        block(&["a"], &[(EntryType::Hostname, "h")]),
        block(&["b"], &[(EntryType::Hostname, "h"), (EntryType::Port, "22")]),
        block(&["c"], &[(EntryType::Hostname, "other")]),
    ];
    let merged = blocks.merge_same_hosts();
    assert_eq!(patterns_of(&merged), vec![vec!["a"], vec!["b"], vec!["c"]]);
}

#[test]
fn placeholder_in_any_value_prevents_merge() {
    let entries = [(EntryType::Hostname, "h"), (EntryType::LocalCommand, "echo %h")];
    let blocks = vec![block(&["a"], &entries), block(&["b"], &entries)];
    assert_eq!(blocks.merge_same_hosts().len(), 2);
}

#[test]
fn merge_of_nothing_is_nothing() {
    let blocks: Vec<Block> = Vec::new();
    assert!(blocks.merge_same_hosts().is_empty());
    assert!(blocks.spread().is_empty());
    assert!(blocks.apply_patterns().is_empty());
    assert!(blocks.apply_name_to_empty_hostname().is_empty());
    assert!(resolve(&blocks).is_empty());
}

#[test]
fn end_to_end() {
    let blocks = vec![
        block(&["*.corp"], &[(EntryType::User, "svc")]),
        block(&["api.corp", "www.corp"], &[]),
    ];
    let hosts = resolve(&blocks);
    assert_eq!(names(&hosts), vec!["api.corp", "www.corp"]);
    for h in &hosts {
        assert_eq!(h.user, Some("svc".to_string()));
        assert_eq!(h.destination, h.name);
        assert!(h.local_forwards.is_empty());
        assert!(h.aliases.is_empty());
        assert_eq!(h.port, None);
        assert_eq!(h.proxy_command, None);
    }
}

#[test]
fn resolving_the_output_again_changes_nothing() {
    let blocks = vec![
        block(&["*.corp"], &[(EntryType::User, "svc")]),
        block(&["api.corp", "www.corp"], &[(EntryType::LocalForward, "1 a:2")]),
        block(
            &["one", "two"],
            &[(EntryType::Hostname, "10.0.0.1"), (EntryType::Port, "22")],
        ),
        block(
            &["jump"],
            &[(EntryType::Hostname, "j"), (EntryType::ProxyCommand, "nc %h 22")],
        ),
        block(
            &["jump2"],
            &[(EntryType::Hostname, "j"), (EntryType::ProxyCommand, "nc %h 22")],
        ),
    ];
    let first = resolve(&blocks);
    assert_eq!(names(&first), vec!["api.corp", "www.corp", "one", "jump", "jump2"]);
    assert_eq!(first[2].aliases, vec!["two"]);
    let again: Vec<Block> = first.iter().map(|h| h.to_block()).collect();
    let second = resolve(&again);
    assert_eq!(records(&second), records(&first));
}

#[test]
fn merged_forwards_double_when_resolved_again() {
    let entries = [(EntryType::Hostname, "h"), (EntryType::LocalForward, "1 a:2")];
    let blocks = vec![block(&["foo"], &entries), block(&["bar"], &entries)];
    let first = resolve(&blocks);
    assert_eq!(first.len(), 1);
    assert_eq!(first[0].aliases, vec!["bar"]);
    assert_eq!(first[0].local_forwards.len(), 2);
    let again: Vec<Block> = first.iter().map(|h| h.to_block()).collect();
    let second = resolve(&again);
    assert_eq!(second.len(), 1);
    assert_eq!(second[0].local_forwards.len(), 4);
}

#[test]
fn record_and_block_correspond() {
    let mut b = block(
        &["name", "alias1", "alias2"],
        &[
            (EntryType::Hostname, "10.1.1.1"),
            (EntryType::User, "u"),
            (EntryType::Port, "2200"),
            (EntryType::ProxyCommand, "nc gate 22"),
            (EntryType::IdentityFile, "~/.ssh/id"),
        ],
    );
    b.update((EntryType::LocalForward, "8888 localhost:9999".to_string()));
    let host = Host::from_block(&b);
    assert_eq!(host.name, "name");
    assert_eq!(host.aliases, vec!["alias1", "alias2"]);
    assert_eq!(host.user, Some("u".to_string()));
    assert_eq!(host.destination, "10.1.1.1");
    assert_eq!(host.port, Some("2200".to_string()));
    assert_eq!(host.proxy_command, Some("nc gate 22".to_string()));
    assert_eq!(host.local_forwards.len(), 1);
    let back = host.to_block();
    assert_eq!(back.get_patterns(), &vec!["name", "alias1", "alias2"]);
    assert_eq!(back.get(&EntryType::Hostname), Some("10.1.1.1".to_string()));
    assert_eq!(back.get(&EntryType::User), Some("u".to_string()));
    assert_eq!(back.get(&EntryType::Port), Some("2200".to_string()));
    assert_eq!(back.get(&EntryType::ProxyCommand), Some("nc gate 22".to_string()));
    assert_eq!(back.get(&EntryType::IdentityFile), None);
    assert_eq!(
        forward_triples(&back.local_forwards),
        vec![("8888".to_string(), "localhost".to_string(), "9999".to_string())]
    );
}

#[test]
fn aliases_are_joined_with_comma_and_space() {
    let b = block(&["n", "a", "b", "c"], &[]);
    assert_eq!(Host::from_block(&b).aliases_line(), "a, b, c");
    assert_eq!(Host::from_block(&block(&["n", "a"], &[])).aliases_line(), "a");
    assert_eq!(Host::from_block(&block(&["n"], &[])).aliases_line(), "");
}

#[test]
fn merge_stage_keeps_placeholder_blocks_apart() {
    let blocks = vec![
        block(&["foo"], &[(EntryType::ProxyCommand, "nc %h 22")]),
        block(&["bar"], &[(EntryType::ProxyCommand, "nc %h 22")]),
    ];
    let merged = blocks.merge_same_hosts();
    assert_eq!(patterns_of(&merged), vec![vec!["foo"], vec!["bar"]]);
    let hosts: Vec<Host> = merged.iter().map(Host::from_block).collect();
    assert_eq!(names(&hosts), vec!["foo", "bar"]);
    assert!(hosts[0].aliases.is_empty());
    assert!(hosts[1].aliases.is_empty());
}

#[test]
fn merge_stage_joins_identical_blocks() {
    let blocks = vec![
        block(&["foo"], &[(EntryType::ProxyCommand, "nc gate 22")]),
        block(&["bar"], &[(EntryType::ProxyCommand, "nc gate 22")]),
    ];
    let merged = blocks.merge_same_hosts();
    assert_eq!(merged.len(), 1);
    let host = Host::from_block(&merged[0]);
    assert_eq!(host.name, "foo");
    assert_eq!(host.aliases, vec!["bar"]);
    assert_eq!(host.proxy_command, Some("nc gate 22".to_string()));
}

#[test]
fn stages_leave_resolved_blocks_as_they_are() {
    let blocks = vec![
        block(&["a"], &[(EntryType::Hostname, "1"), (EntryType::LocalForward, "1 x:1")]),
        block(&["b", "c"], &[(EntryType::Hostname, "2")]),
        block(&["d"], &[(EntryType::Hostname, "3"), (EntryType::ProxyCommand, "nc %h")]),
        block(&["e"], &[(EntryType::Hostname, "3"), (EntryType::ProxyCommand, "nc %h")]),
    ];
    let again = blocks
        .apply_patterns()
        .apply_name_to_empty_hostname()
        .merge_same_hosts();
    assert_eq!(
        patterns_of(&again),
        vec![vec!["a"], vec!["b", "c"], vec!["d"], vec!["e"]]
    );
    for (before, after) in blocks.iter().zip(again.iter()) {
        assert!(before.same_entries(after));
        assert_eq!(
            forward_triples(&before.local_forwards),
            forward_triples(&after.local_forwards)
        );
    }
}

#[test]
fn hosts_that_differ_in_what_a_record_hides_merge_when_resolved_again() {
    let blocks = vec![
        block(&["a"], &[(EntryType::Hostname, "h"), (EntryType::IdentityFile, "one")]),
        block(&["b"], &[(EntryType::Hostname, "h"), (EntryType::IdentityFile, "two")]),
    ];
    let first = resolve(&blocks);
    assert_eq!(names(&first), vec!["a", "b"]);
    let again: Vec<Block> = first.iter().map(|h| h.to_block()).collect();
    let second = resolve(&again);
    assert_eq!(names(&second), vec!["a"]);
    assert_eq!(second[0].aliases, vec!["b"]);
}
