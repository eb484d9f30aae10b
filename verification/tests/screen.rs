use sshs::listing::{largest, lets_through, matches_search, padded, widest};
use sshs::navigation::{decide, next, page_down, page_up, previous, settle, Decision, Key};

#[test]
fn next_row_wraps_at_the_end() {
    assert_eq!(next(Some(0), 3), 1);
    assert_eq!(next(Some(1), 3), 2);
    assert_eq!(next(Some(2), 3), 0);
    assert_eq!(next(Some(7), 3), 0);
    assert_eq!(next(None, 3), 0);
    assert_eq!(next(Some(0), 0), 0);
    assert_eq!(next(Some(0), 1), 0);
}

#[test]
fn previous_row_wraps_at_the_start() {
    assert_eq!(previous(Some(2), 3), 1);
    assert_eq!(previous(Some(0), 3), 2);
    assert_eq!(previous(None, 3), 0);
    assert_eq!(previous(Some(0), 0), 0);
    assert_eq!(previous(Some(5), 0), 0);
}

#[test]
fn page_keys_move_by_a_page() {
    assert_eq!(page_down(Some(0), 100), 21);
    assert_eq!(page_down(Some(90), 100), 99);
    assert_eq!(page_down(Some(78), 100), 99);
    assert_eq!(page_down(Some(77), 100), 98);
    assert_eq!(page_down(None, 100), 21);
    assert_eq!(page_down(Some(0), 0), 0);
    assert_eq!(page_down(Some(usize::MAX), 10), 9);
    assert_eq!(page_down(Some(50), 10), 9);
    assert_eq!(page_up(Some(30)), 9);
    assert_eq!(page_up(Some(21)), 0);
    assert_eq!(page_up(Some(5)), 0);
    assert_eq!(page_up(None), 0);
}

#[test]
fn selection_settles_after_a_search() {
    assert_eq!(settle(Some(5), 3), Some(2));
    assert_eq!(settle(Some(3), 3), Some(2));
    assert_eq!(settle(Some(2), 3), None);
    assert_eq!(settle(Some(0), 0), Some(0));
    assert_eq!(settle(None, 0), Some(0));
    assert_eq!(settle(None, 2), None);
}

#[test]
fn plain_keys() {
    assert_eq!(decide(Key::Esc, false, Some(1), 3), Decision::Stop);
    assert_eq!(decide(Key::Down, false, Some(1), 3), Decision::Select(2));
    assert_eq!(decide(Key::Up, false, Some(1), 3), Decision::Select(0));
    assert_eq!(decide(Key::Home, false, Some(2), 3), Decision::Select(0));
    assert_eq!(decide(Key::End, false, Some(0), 3), Decision::Select(2));
    assert_eq!(decide(Key::End, false, Some(0), 0), Decision::Nothing);
    assert_eq!(decide(Key::PageDown, false, Some(0), 30), Decision::Select(21));
    assert_eq!(decide(Key::PageUp, false, Some(25), 30), Decision::Select(4));
    assert_eq!(decide(Key::Enter, false, Some(1), 3), Decision::Launch(1));
    assert_eq!(decide(Key::Enter, false, None, 3), Decision::Launch(0));
    assert_eq!(decide(Key::Enter, false, Some(3), 3), Decision::Nothing);
    assert_eq!(decide(Key::Enter, false, None, 0), Decision::Nothing);
    assert_eq!(decide(Key::Char('j'), false, Some(1), 3), Decision::Pass);
    assert_eq!(decide(Key::Char('c'), false, Some(1), 3), Decision::Pass);
    assert_eq!(decide(Key::Other, false, Some(1), 3), Decision::Pass);
}

#[test]
fn keys_with_control() {
    assert_eq!(decide(Key::Char('c'), true, Some(1), 3), Decision::Stop);
    assert_eq!(decide(Key::Char('j'), true, Some(1), 3), Decision::Select(2));
    assert_eq!(decide(Key::Char('n'), true, Some(2), 3), Decision::Select(0));
    assert_eq!(decide(Key::Char('k'), true, Some(1), 3), Decision::Select(0));
    assert_eq!(decide(Key::Char('p'), true, Some(0), 3), Decision::Select(2));
    assert_eq!(decide(Key::Char('x'), true, Some(1), 3), Decision::Pass);
    assert_eq!(decide(Key::Esc, true, Some(1), 3), Decision::Stop);
    assert_eq!(decide(Key::Down, true, Some(1), 3), Decision::Select(2));
    assert_eq!(decide(Key::Enter, true, Some(1), 3), Decision::Launch(1));
}

#[test]
fn search_lets_matching_hosts_through() {
    assert!(matches_search("web", "10.0.0.1", "", ""));
    assert!(matches_search("web-server", "10.0.0.1", "", "wsv"));
    assert!(matches_search("db", "web.example.com", "", "web"));
    assert!(matches_search("db", "10.0.0.1", "first, web", "web"));
    assert!(!matches_search("db", "10.0.0.1", "first, second", "web"));
    assert!(!matches_search("web", "web", "web", "xyz"));
}

#[test]
fn scores_decide_the_search() {
    assert!(lets_through(true, None, None, None));
    assert!(lets_through(false, Some(0), None, None));
    assert!(lets_through(false, None, Some(-3), None));
    assert!(lets_through(false, None, None, Some(12)));
    assert!(!lets_through(false, None, None, None));
}

#[test]
fn widest_text_gives_the_width() {
    assert_eq!(widest(&vec!["ab".to_string(), "abcd".to_string(), "a".to_string()]), 4);
    assert_eq!(widest(&vec!["日本".to_string(), "abc".to_string()]), 4);
    assert_eq!(widest(&Vec::new()), 0);
    assert_eq!(widest(&vec![String::new()]), 0);
    assert_eq!(largest(&vec![3, 9, 2]), 9);
    assert_eq!(largest(&Vec::new()), 0);
}

#[test]
fn columns_are_padded_by_one() {
    assert_eq!(padded(0), 1);
    assert_eq!(padded(10), 11);
    assert_eq!(padded(65534), 65535);
    assert_eq!(padded(65535), 65535);
    assert_eq!(padded(65536), 1);
    assert_eq!(padded(usize::MAX), 1);
}

fn named(name: &str, destination: &str) -> sshs::ssh::Host {
    sshs::ssh::Host {
        name: name.to_string(),
        aliases: Vec::new(),
        user: None,
        destination: destination.to_string(),
        port: None,
        proxy_command: None,
        local_forwards: Vec::new(),
    }
}

fn in_turn(hosts: &[sshs::ssh::Host]) -> Vec<(String, String)> {
    hosts.iter().map(|h| (h.name.clone(), h.destination.clone())).collect()
}

fn pairs(list: &[(&str, &str)]) -> Vec<(String, String)> {
    list.iter().map(|(a, b)| (a.to_string(), b.to_string())).collect()
}

#[test]
fn hosts_are_sorted_without_regard_to_case() {
    let hosts = vec![named("delta", "1"), named("Alpha", "2"), named("charlie", "3"), named("Bravo", "4")];
    let sorted = sshs::sorting::sort_by_name(hosts);
    assert_eq!(
        in_turn(&sorted),
        pairs(&[("Alpha", "2"), ("Bravo", "4"), ("charlie", "3"), ("delta", "1")])
    );
}

#[test]
fn hosts_with_the_same_name_keep_their_order() {
    let hosts = vec![
        named("web", "1"),
        named("db", "2"),
        named("WEB", "3"),
        named("Db", "4"),
        named("web", "5"),
    ];
    let sorted = sshs::sorting::sort_by_name(hosts);
    assert_eq!(
        in_turn(&sorted),
        pairs(&[("db", "2"), ("Db", "4"), ("web", "1"), ("WEB", "3"), ("web", "5")])
    );
}

#[test]
fn sorting_agrees_with_the_order_of_strings() {
    let names = ["b", "", "ab", "a", "B", "é", "z", "abc", "aB", "Z", "日本", "a-b", "a.b", "A"];
    let hosts: Vec<sshs::ssh::Host> = names.iter().map(|n| named(n, n)).collect();
    let mut expected = hosts.clone();
    expected.sort_by(|a, b| a.name.to_lowercase().cmp(&b.name.to_lowercase()));
    let sorted = sshs::sorting::sort_by_name(hosts);
    assert_eq!(in_turn(&sorted), in_turn(&expected));
    assert!(sshs::sorting::sort_by_name(Vec::new()).is_empty());
}

#[test]
fn texts_are_ordered_by_the_first_difference() {
    let chars = |s: &str| s.chars().collect::<Vec<char>>();
    assert!(sshs::sorting::keys_in_order(&chars("abc"), &chars("abd")));
    assert!(!sshs::sorting::keys_in_order(&chars("abd"), &chars("abc")));
    assert!(sshs::sorting::keys_in_order(&chars("ab"), &chars("abc")));
    assert!(!sshs::sorting::keys_in_order(&chars("abc"), &chars("ab")));
    assert!(sshs::sorting::keys_in_order(&chars("abc"), &chars("abc")));
    assert!(sshs::sorting::keys_in_order(&chars(""), &chars("")));
    assert!(sshs::sorting::keys_in_order(&chars(""), &chars("a")));
    assert_eq!(sshs::sorting::name_key(&named("WeB-1", "")), chars("web-1"));
}

#[test]
fn only_the_missing_system_file_is_passed_over() {
    assert!(sshs::ssh::passes_over("/etc/ssh/ssh_config", true));
    assert!(!sshs::ssh::passes_over("/etc/ssh/ssh_config", false));
    assert!(!sshs::ssh::passes_over("~/.ssh/config", true));
    assert!(!sshs::ssh::passes_over("/etc/ssh/ssh_config ", true));
    assert!(!sshs::ssh::passes_over("", true));
    assert!(sshs::text::same_text("abc", "abc"));
    assert!(!sshs::text::same_text("abc", "abd"));
    assert!(!sshs::text::same_text("abc", "ab"));
    assert!(sshs::text::same_text("", ""));
}

#[test]
fn search_copes_with_long_and_odd_texts() {
    let long = "a".repeat(20_000);
    assert!(matches_search(&long, "", "", "aaa"));
    assert!(!matches_search(&long, "", "", "b"));
    assert!(matches_search("x", "y", "z", ""));
    assert!(matches_search("日本語ホスト", "", "", "本"));
    assert!(!matches_search("", "", "", "a"));
    assert!(matches_search("Web", "", "", "web"));
    assert_eq!(widest(&vec![long]), 20_000);
}

#[test]
fn row_shows_the_fields_of_a_host() {
    let mut host = named("web", "10.0.0.1");
    host.aliases = vec!["w".to_string(), "www".to_string()];
    host.user = Some("admin".to_string());
    host.proxy_command = Some("nc gate 22".to_string());
    assert_eq!(
        sshs::listing::row(&host, false),
        vec!["web", "w, www", "admin", "10.0.0.1", ""]
    );
    assert_eq!(
        sshs::listing::row(&host, true),
        vec!["web", "w, www", "admin", "10.0.0.1", "", "nc gate 22"]
    );
    assert_eq!(
        sshs::listing::row(&named("db", "d"), true),
        vec!["db", "", "", "d", "", ""]
    );
}

#[test]
fn forwardings_are_shown_one_in_a_line() {
    let mut host = named("web", "10.0.0.1");
    assert_eq!(sshs::listing::forward_lines(&host), vec!["No LocalForward defined"]);
    host.local_forwards = vec![
        sshs::ssh_config::host::LocalForward {
            local_port: "8888".to_string(),
            remote_host: "localhost".to_string(),
            remote_port: "9999".to_string(),
        },
        sshs::ssh_config::host::LocalForward {
            local_port: "1".to_string(),
            remote_host: "h".to_string(),
            remote_port: "2".to_string(),
        },
    ];
    assert_eq!(
        sshs::listing::forward_lines(&host),
        vec!["8888 -> localhost:9999", "1 -> h:2"]
    );
}

#[test]
fn columns_are_as_wide_as_their_widest_cell() {
    let mut a = named("web", "10.0.0.1");
    a.aliases = vec!["w".to_string(), "www".to_string()];
    a.user = Some("admin".to_string());
    a.proxy_command = Some("nc gate 22".to_string());
    let mut b = named("database", "db");
    b.port = Some("2222".to_string());
    let all = vec![a.clone(), b.clone()];
    let shown = vec![a];
    assert_eq!(
        sshs::listing::column_widths(&shown, &all, false),
        vec![4, 7, 6, 9, 5]
    );
    assert_eq!(
        sshs::listing::column_widths(&shown, &all, true),
        vec![4, 7, 6, 9, 5, 11]
    );
    assert_eq!(
        sshs::listing::column_widths(&all, &all, false),
        vec![9, 7, 6, 9, 5]
    );
    assert_eq!(
        sshs::listing::column_widths(&Vec::new(), &Vec::new(), true),
        vec![1, 1, 1, 1, 1, 1]
    );
}

#[test]
fn search_keeps_the_hosts_it_lets_through_in_order() {
    let mut c = named("cache", "10.0.0.3");
    c.aliases = vec!["web-cache".to_string()];
    let all = vec![named("web", "10.0.0.1"), named("db", "10.0.0.2"), c, named("mail", "web.example")];
    assert_eq!(
        in_turn(&sshs::listing::filter_hosts(&all, "web")),
        pairs(&[("web", "10.0.0.1"), ("cache", "10.0.0.3"), ("mail", "web.example")])
    );
    assert_eq!(in_turn(&sshs::listing::filter_hosts(&all, "")), in_turn(&all));
    assert!(sshs::listing::filter_hosts(&all, "zzz").is_empty());
    assert!(sshs::listing::filter_hosts(&Vec::new(), "").is_empty());
    let copy = all[2].duplicate();
    assert_eq!(format!("{:?}", copy), format!("{:?}", all[2]));
}
