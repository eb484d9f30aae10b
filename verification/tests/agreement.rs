use sshs::ssh_config::host::Host as Block;
use sshs::ssh_config::pattern::expression_covers;
use sshs::ssh_config::{EntryType, HostVecExt};

struct Dice(u64);

impl Dice {
    fn roll(&mut self, sides: usize) -> usize {
        self.0 = self.0.wrapping_mul(6364136223846793005).wrapping_add(1442695040888963407);
        ((self.0 >> 33) as usize) % sides
    }
}

const NAMES: [&str; 10] = [
    "web", "web1", "db", "db.corp", "api.corp", "*.corp", "web*", "!db", "d?", "*",
];
const KINDS: [EntryType; 4] = [
    EntryType::Hostname,
    EntryType::User,
    EntryType::ProxyCommand,
    EntryType::IdentityFile,
];
const VALUES: [&str; 4] = ["a", "b", "nc %h 22", "c"];
const FORWARDS: [&str; 4] = ["1 a:1", "2 b:2", "broken", "3 c:3 more"];

fn random_blocks(dice: &mut Dice, plain_only: bool) -> Vec<Block> {
    let count = dice.roll(7);
    let mut blocks = Vec::new();
    for _ in 0..count {
        let patterns = (0..dice.roll(4))
            .map(|_| NAMES[dice.roll(if plain_only { 5 } else { NAMES.len() })].to_string())
            .collect();
        let mut block = Block::new(patterns);
        for _ in 0..dice.roll(4) {
            let kind = KINDS[dice.roll(KINDS.len())];
            block.update((kind, VALUES[dice.roll(VALUES.len())].to_string()));
        }
        for _ in 0..dice.roll(3) {
            block.update((
                EntryType::LocalForward,
                FORWARDS[dice.roll(FORWARDS.len())].to_string(),
            ));
        }
        blocks.push(block);
    }
    blocks
}

fn merge_in_place(blocks: &[Block]) -> Vec<Block> {
    let mut hosts: Vec<Block> = blocks.to_vec();
    for i in (0..hosts.len()).rev() {
        let (left, right) = hosts.split_at_mut(i);
        let current = &right[0];
        for j in (0..i).rev() {
            let target = &mut left[j];
            if !current.same_entries(target) {
                continue;
            }
            if current.mentions_placeholder() {
                continue;
            }
            target.extend_patterns(current);
            target.extend_entries(current);
            hosts.remove(i);
            break;
        }
    }
    hosts
}

fn apply_in_place(blocks: &[Block]) -> Vec<Block> {
    let mut hosts = blocks.to_vec().spread();
    let mut pattern_indexes = Vec::new();
    for i in 0..hosts.len() {
        let matchers = hosts[i].matching_pattern_regexes();
        if matchers.is_empty() {
            continue;
        }
        pattern_indexes.push(i);
        for j in 0..hosts.len() {
            if i == j {
                continue;
            }
            if !hosts[j].matching_pattern_regexes().is_empty() {
                continue;
            }
            if hosts[j].get_patterns().is_empty() {
                continue;
            }
            for (expression, negated) in &matchers {
                let name = hosts[j].get_patterns()[0].clone();
                if !expression_covers(expression, *negated, &name) {
                    continue;
                }
                let host = hosts[i].clone();
                hosts[j].extend_if_not_contained(&host);
                break;
            }
        }
    }
    for i in pattern_indexes.into_iter().rev() {
        hosts.remove(i);
    }
    hosts
}

fn assert_same(left: &[Block], right: &[Block], round: usize) {
    assert_eq!(left.len(), right.len(), "round {}", round);
    for (a, b) in left.iter().zip(right.iter()) {
        assert_eq!(a.get_patterns(), b.get_patterns(), "round {}", round);
        assert!(a.same_entries(b), "round {}", round);
        let forwards = |block: &Block| -> Vec<String> {
            block
                .local_forwards
                .iter()
                .map(|f| format!("{} {} {}", f.local_port, f.remote_host, f.remote_port))
                .collect()
        };
        assert_eq!(forwards(a), forwards(b), "round {}", round);
    }
}

#[test]
fn merge_agrees_with_merging_in_place() {
    let mut dice = Dice(1);
    for round in 0..400 {
        let blocks = random_blocks(&mut dice, true);
        assert_same(&blocks.merge_same_hosts(), &merge_in_place(&blocks), round);
    }
}

#[test]
fn merge_of_spread_blocks_agrees_with_merging_in_place() {
    let mut dice = Dice(2);
    for round in 0..400 {
        let blocks = random_blocks(&mut dice, true).spread().apply_name_to_empty_hostname();
        assert_same(&blocks.merge_same_hosts(), &merge_in_place(&blocks), round);
    }
}

#[test]
fn pattern_application_agrees_with_applying_in_place() {
    let mut dice = Dice(3);
    for round in 0..400 {
        let blocks = random_blocks(&mut dice, false);
        assert_same(&blocks.apply_patterns(), &apply_in_place(&blocks), round);
    }
}

#[test]
fn merging_twice_is_merging_once() {
    let mut dice = Dice(4);
    for round in 0..200 {
        let once = random_blocks(&mut dice, true).merge_same_hosts();
        assert_same(&once.merge_same_hosts(), &once, round);
    }
}
