//! Resolved host records, and the command line that acts on one.

use crate::ssh_config::host::{
    forwards, texts, views, Host as Block, HostView, LocalForward, LocalForwardView,
};
use crate::ssh_config::stages::pipeline;
use crate::ssh_config::{EntryType, HostVecExt};
use crate::text::same_text;
use itertools::Itertools;
use vstd::prelude::*;

verus! {

/// A resolved host: what is needed to show it and to connect to it.
#[derive(Debug, Clone)]
pub struct Host {
    pub name: String,
    pub aliases: Vec<String>,
    pub user: Option<String>,
    pub destination: String,
    pub port: Option<String>,
    pub proxy_command: Option<String>,
    pub local_forwards: Vec<LocalForward>,
}

/// A resolved host as contracts see it.
pub struct HostRecord {
    pub name: Seq<char>,
    pub aliases: Seq<Seq<char>>,
    pub user: Option<Seq<char>>,
    pub destination: Seq<char>,
    pub port: Option<Seq<char>>,
    pub proxy_command: Option<Seq<char>>,
    pub local_forwards: Seq<LocalForwardView>,
}

/// The text of an optional string.
pub open spec fn optional_text(value: Option<String>) -> Option<Seq<char>> {
    match value {
        Some(text) => Some(text@),
        None => None,
    }
}

impl View for Host {
    type V = HostRecord;

    open spec fn view(&self) -> HostRecord {
        HostRecord {
            name: self.name@,
            aliases: texts(self.aliases@),
            user: optional_text(self.user),
            destination: self.destination@,
            port: optional_text(self.port),
            proxy_command: optional_text(self.proxy_command),
            local_forwards: forwards(self.local_forwards@),
        }
    }
}

/// The views of a list of resolved hosts.
pub open spec fn records(hosts: Seq<Host>) -> Seq<HostRecord> {
    hosts.map_values(|host: Host| host@)
}

/// The value that `entries` has for `kind`, if it has one.
pub open spec fn value_of(entries: Map<EntryType, Seq<char>>, kind: EntryType) -> Option<
    Seq<char>,
> {
    if entries.contains_key(kind) {
        Some(entries[kind])
    } else {
        None
    }
}

/// The record of a resolved block. The first pattern is the name and the
/// others are the aliases; a block without patterns has the empty name. The
/// destination is the `Hostname` of the block, and empty if it has none.
pub open spec fn record_of(block: HostView) -> HostRecord {
    HostRecord {
        name: if block.patterns.len() > 0 {
            block.patterns[0]
        } else {
            Seq::empty()
        },
        aliases: if block.patterns.len() > 0 {
            block.patterns.skip(1)
        } else {
            Seq::empty()
        },
        user: value_of(block.entries, EntryType::User),
        destination: match value_of(block.entries, EntryType::Hostname) {
            Some(value) => value,
            None => Seq::empty(),
        },
        port: value_of(block.entries, EntryType::Port),
        proxy_command: value_of(block.entries, EntryType::ProxyCommand),
        local_forwards: block.local_forwards,
    }
}

/// The resolved hosts of the blocks of one file: the four stages, and then
/// the record of each block that is left.
pub open spec fn resolve_spec(blocks: Seq<HostView>) -> Seq<HostRecord> {
    pipeline(blocks).map_values(|block: HostView| record_of(block))
}

/// `entries` with `value` for `kind`, if there is a value.
pub open spec fn with_optional(
    entries: Map<EntryType, Seq<char>>,
    kind: EntryType,
    value: Option<Seq<char>>,
) -> Map<EntryType, Seq<char>> {
    match value {
        Some(text) => entries.insert(kind, text),
        None => entries,
    }
}

/// The block that restates a resolved host: its name and aliases as
/// patterns, its destination as `Hostname`, its user, port and proxy
/// command where it has them, and its forwardings.
pub open spec fn block_of(host: HostRecord) -> HostView {
    HostView {
        patterns: seq![host.name] + host.aliases,
        entries: with_optional(
            with_optional(
                with_optional(
                    Map::empty().insert(EntryType::Hostname, host.destination),
                    EntryType::User,
                    host.user,
                ),
                EntryType::Port,
                host.port,
            ),
            EntryType::ProxyCommand,
            host.proxy_command,
        ),
        local_forwards: host.local_forwards,
    }
}

/// The blocks that restate a list of resolved hosts.
pub open spec fn blocks_of(hosts: Seq<HostRecord>) -> Seq<HostView> {
    hosts.map_values(|host: HostRecord| block_of(host))
}

/// The parts joined into one text, with `separator` between each two.
pub open spec fn joined(parts: Seq<Seq<char>>, separator: Seq<char>) -> Seq<char>
    decreases parts.len(),
{
    if parts.len() == 0 {
        Seq::empty()
    } else if parts.len() == 1 {
        parts[0]
    } else {
        joined(parts.drop_last(), separator) + separator + parts.last()
    }
}

/// `Itertools::join` on the strings of a list: the strings in their order
/// with the separator between each two, and the empty string for an empty
/// list.
#[verifier::external_body]
fn join_with(parts: &Vec<String>, separator: &str) -> (r: String)
    ensures
        r@ == joined(texts(parts@), separator@),
{
    parts.iter().join(separator)
}

/// A copy of a string that may be missing.
fn copy_of(value: &Option<String>) -> (r: Option<String>)
    ensures
        optional_text(r) == optional_text(*value),
{
    match value {
        Some(text) => Some(text.clone()),
        None => None,
    }
}

impl Host {
    /// The record of a resolved block.
    pub fn from_block(block: &Block) -> (r: Host)
        ensures
            r@ == record_of(block@),
    {
        let patterns = block.get_patterns();
        let mut name = String::new();
        let mut aliases: Vec<String> = Vec::new();
        if patterns.len() > 0 {
            name = patterns[0].clone();
            let mut i: usize = 1;
            while i < patterns.len()
                invariant
                    1 <= i <= patterns.len(),
                    texts(aliases@) == texts(patterns@).subrange(1, i as int),
                decreases patterns.len() - i,
            {
                let ghost before = aliases@;
                aliases.push(patterns[i].clone());
                assert(texts(aliases@) == texts(before).push(patterns@[i as int]@));
                i += 1;
            }
            assert(texts(patterns@).subrange(1, patterns.len() as int) == texts(patterns@).skip(
                1,
            ));
        }
        let destination = match block.get(&EntryType::Hostname) {
            Some(value) => value,
            None => String::new(),
        };
        let sources = &block.local_forwards;
        let mut local_forwards: Vec<LocalForward> = Vec::new();
        let mut k: usize = 0;
        while k < sources.len()
            invariant
                k <= sources.len(),
                forwards(local_forwards@) == forwards(sources@).take(k as int),
            decreases sources.len() - k,
        {
            let ghost before = local_forwards@;
            let copy = sources[k].duplicate();
            local_forwards.push(copy);
            assert(forwards(local_forwards@) == forwards(before).push(copy@));
            k += 1;
        }
        assert(forwards(sources@).take(sources.len() as int) == forwards(sources@));
        let r = Host {
            name,
            aliases,
            user: block.get(&EntryType::User),
            destination,
            port: block.get(&EntryType::Port),
            proxy_command: block.get(&EntryType::ProxyCommand),
            local_forwards,
        };
        proof {
            let record = record_of(block@);
            assert(r@.name == record.name);
            assert(r@.aliases == record.aliases);
            assert(r@.user == record.user);
            assert(r@.destination == record.destination);
            assert(r@.port == record.port);
            assert(r@.proxy_command == record.proxy_command);
            assert(r@.local_forwards == record.local_forwards);
        }
        r
    }

    /// A copy of this host.
    pub fn duplicate(&self) -> (r: Host)
        ensures
            r@ == self@,
    {
        let mut aliases: Vec<String> = Vec::new();
        let mut i: usize = 0;
        while i < self.aliases.len()
            invariant
                i <= self.aliases.len(),
                texts(aliases@) == texts(self.aliases@).take(i as int),
            decreases self.aliases.len() - i,
        {
            let ghost before = aliases@;
            aliases.push(self.aliases[i].clone());
            assert(texts(aliases@) == texts(before).push(self.aliases@[i as int]@));
            i += 1;
        }
        assert(texts(self.aliases@).take(self.aliases.len() as int) == texts(self.aliases@));
        let mut local_forwards: Vec<LocalForward> = Vec::new();
        let mut k: usize = 0;
        while k < self.local_forwards.len()
            invariant
                k <= self.local_forwards.len(),
                forwards(local_forwards@) == forwards(self.local_forwards@).take(k as int),
            decreases self.local_forwards.len() - k,
        {
            let ghost before = local_forwards@;
            let copy = self.local_forwards[k].duplicate();
            local_forwards.push(copy);
            assert(forwards(local_forwards@) == forwards(before).push(copy@));
            k += 1;
        }
        assert(forwards(self.local_forwards@).take(self.local_forwards.len() as int) == forwards(
            self.local_forwards@,
        ));
        Host {
            name: self.name.clone(),
            aliases,
            user: copy_of(&self.user),
            destination: self.destination.clone(),
            port: copy_of(&self.port),
            proxy_command: copy_of(&self.proxy_command),
            local_forwards,
        }
    }

    /// The block that restates this host.
    pub fn to_block(&self) -> (r: Block)
        ensures
            r@ == block_of(self@),
    {
        let mut patterns: Vec<String> = Vec::new();
        patterns.push(self.name.clone());
        let mut i: usize = 0;
        while i < self.aliases.len()
            invariant
                i <= self.aliases.len(),
                texts(patterns@) == seq![self.name@] + texts(self.aliases@).take(i as int),
            decreases self.aliases.len() - i,
        {
            let ghost before = patterns@;
            patterns.push(self.aliases[i].clone());
            assert(texts(patterns@) == texts(before).push(self.aliases@[i as int]@));
            i += 1;
        }
        assert(texts(self.aliases@).take(self.aliases.len() as int) == texts(self.aliases@));
        let mut block = Block::new(patterns);
        block.update((EntryType::Hostname, self.destination.clone()));
        match &self.user {
            Some(value) => {
                block.update((EntryType::User, value.clone()));
            },
            None => {},
        }
        match &self.port {
            Some(value) => {
                block.update((EntryType::Port, value.clone()));
            },
            None => {},
        }
        match &self.proxy_command {
            Some(value) => {
                block.update((EntryType::ProxyCommand, value.clone()));
            },
            None => {},
        }
        proof {
            assert(block@.patterns == block_of(self@).patterns);
            assert(block@.entries == block_of(self@).entries);
            assert(block@.local_forwards == forwards(self.local_forwards@).take(0));
        }
        let mut k: usize = 0;
        while k < self.local_forwards.len()
            invariant
                k <= self.local_forwards.len(),
                block@ == (HostView {
                    local_forwards: forwards(self.local_forwards@).take(k as int),
                    ..block_of(self@)
                }),
            decreases self.local_forwards.len() - k,
        {
            let ghost before = block.local_forwards@;
            let copy = self.local_forwards[k].duplicate();
            block.local_forwards.push(copy);
            assert(forwards(block.local_forwards@) == forwards(before).push(copy@));
            assert(forwards(self.local_forwards@).take(k + 1) == forwards(
                self.local_forwards@,
            ).take(k as int).push(self.local_forwards@[k as int]@));
            k += 1;
        }
        assert(forwards(self.local_forwards@).take(self.local_forwards.len() as int) == forwards(
            self.local_forwards@,
        ));
        block
    }

    /// The aliases in one line, separated by a comma and a space.
    pub fn aliases_line(&self) -> (r: String)
        ensures
            r@ == joined(self@.aliases, seq![',', ' ']),
    {
        proof {
            reveal_strlit(", ");
            assert(", "@ == seq![',', ' ']);
        }
        join_with(&self.aliases, ", ")
    }
}

/// Resolves the blocks of one file, given in the order of the file, into
/// host records. Every list of blocks resolves; nothing is reported as an
/// error.
pub fn resolve(blocks: &Vec<Block>) -> (r: Vec<Host>)
    ensures
        records(r@) == resolve_spec(views(blocks@)),
{
    let resolved = blocks.apply_patterns().apply_name_to_empty_hostname().merge_same_hosts();
    let mut hosts: Vec<Host> = Vec::new();
    let mut i: usize = 0;
    while i < resolved.len()
        invariant
            i <= resolved.len(),
            records(hosts@) == views(resolved@).map_values(|block: HostView| record_of(block)).take(
                i as int,
            ),
        decreases resolved.len() - i,
    {
        let ghost before = hosts@;
        let host = Host::from_block(&resolved[i]);
        hosts.push(host);
        assert(records(hosts@) == records(before).push(host@));
        i += 1;
    }
    assert(views(resolved@).map_values(|block: HostView| record_of(block)).take(
        resolved.len() as int,
    ) == views(resolved@).map_values(|block: HostView| record_of(block)));
    hosts
}

/// Whether a configuration file that could not be read is passed over in
/// silence: the system-wide file `/etc/ssh/ssh_config` is, where the reason
/// is that there is no such file. No other file is, and no other failure.
pub open spec fn passed_over(path: Seq<char>, not_found: bool) -> bool {
    not_found && path == "/etc/ssh/ssh_config"@
}

/// Tells whether a configuration file that could not be read is passed
/// over in silence, given its path as it was named and whether the reason
/// is that there is no such file.
pub fn passes_over(path: &str, not_found: bool) -> (b: bool)
    ensures
        b == passed_over(path@, not_found),
{
    not_found && same_text(path, "/etc/ssh/ssh_config")
}

/// Why a rendered command cannot be run.
#[derive(Debug, Clone, Copy, PartialEq, Eq, Structural)]
pub enum CommandError {
    /// The line does not split into words: a quotation is left open, or the
    /// line ends in an escape.
    Unparsable,
    /// The line holds no word at all, so there is no program to run.
    Empty,
}

/// A command ready to run: the program and its arguments.
#[derive(Debug, Clone)]
pub struct CommandLine {
    pub program: String,
    pub arguments: Vec<String>,
}

/// A command line as contracts see it.
pub struct CommandLineView {
    pub program: Seq<char>,
    pub arguments: Seq<Seq<char>>,
}

impl View for CommandLine {
    type V = CommandLineView;

    open spec fn view(&self) -> CommandLineView {
        CommandLineView { program: self.program@, arguments: texts(self.arguments@) }
    }
}

/// The words into which a shell would split `line`, or nothing where the
/// line is malformed.
pub uninterp spec fn shell_words(line: Seq<char>) -> Option<Seq<Seq<char>>>;

/// The texts of an optional list of strings.
pub open spec fn optional_texts(words: Option<Vec<String>>) -> Option<Seq<Seq<char>>> {
    match words {
        Some(list) => Some(texts(list@)),
        None => None,
    }
}

/// The command that the words of a line make: the first word is the program
/// and the others are its arguments.
pub open spec fn command_of(words: Option<Seq<Seq<char>>>) -> Result<
    CommandLineView,
    CommandError,
> {
    match words {
        None => Err(CommandError::Unparsable),
        Some(list) => if list.len() == 0 {
            Err(CommandError::Empty)
        } else {
            Ok(CommandLineView { program: list[0], arguments: list.skip(1) })
        },
    }
}

/// The view of the outcome of reading a command.
pub open spec fn outcome_view(outcome: Result<CommandLine, CommandError>) -> Result<
    CommandLineView,
    CommandError,
> {
    match outcome {
        Ok(command) => Ok(command@),
        Err(error) => Err(error),
    }
}

/// `shlex::split`: the words of `line` by the rules of a POSIX shell, or
/// `None` where the line is malformed. The answer depends on the line alone.
#[verifier::external_body]
fn shell_split(line: &str) -> (words: Option<Vec<String>>)
    ensures
        optional_texts(words) == shell_words(line@),
{
    shlex::split(line)
}

/// Makes a command of the words of a line.
pub fn command_from_words(words: Option<Vec<String>>) -> (r: Result<CommandLine, CommandError>)
    ensures
        outcome_view(r) == command_of(optional_texts(words)),
{
    match words {
        None => Err(CommandError::Unparsable),
        Some(list) => {
            let mut arguments = list;
            if arguments.len() == 0 {
                return Err(CommandError::Empty);
            }
            let ghost all = arguments@;
            let program = arguments.remove(0);
            assert(texts(arguments@) == texts(all).skip(1));
            Ok(CommandLine { program, arguments })
        },
    }
}

/// Splits a rendered command line into the program and its arguments.
pub fn parse_command(rendered: &str) -> (r: Result<CommandLine, CommandError>)
    ensures
        outcome_view(r) == command_of(shell_words(rendered@)),
{
    command_from_words(shell_split(rendered))
}

} // verus!
