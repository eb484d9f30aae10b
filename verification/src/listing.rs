//! The list of hosts on the screen: which hosts a search lets through, and
//! how wide the columns of the table are.

use crate::ssh::{joined, records, Host, HostRecord};
use crate::ssh_config::host::{texts, LocalForwardView};
use fuzzy_matcher::skim::SkimMatcherV2;
use fuzzy_matcher::FuzzyMatcher;
use unicode_width::UnicodeWidthStr;
use vstd::prelude::*;
use vstd::string::StringExecFns;

verus! {

/// The number of terminal columns that `text` takes.
pub uninterp spec fn display_width(text: Seq<char>) -> nat;

/// The score with which `pattern` is found in `choice` by fuzzy matching,
/// or nothing where it is not found.
pub uninterp spec fn fuzzy_score(choice: Seq<char>, pattern: Seq<char>) -> Option<i64>;

/// `UnicodeWidthStr::width` of the unicode-width crate: the displayed width
/// of the text in columns. It depends on the text alone.
#[verifier::external_body]
fn text_width(text: &str) -> (width: usize)
    ensures
        width == display_width(text@),
{
    UnicodeWidthStr::width(text)
}

/// `FuzzyMatcher::fuzzy_match` of the fuzzy-matcher crate, on a
/// `SkimMatcherV2` with its default settings: the score of the match of
/// `pattern` in `choice`, or `None` where the pattern does not match. It
/// depends on the two texts alone.
#[verifier::external_body]
fn fuzzy_match(choice: &str, pattern: &str) -> (score: Option<i64>)
    ensures
        score == fuzzy_score(choice@, pattern@),
{
    SkimMatcherV2::default().fuzzy_match(choice, pattern)
}

/// Whether a search lets a host through, given whether the search is empty
/// and the scores of the search in the name, the destination and the
/// aliases of the host: an empty search lets every host through, and any
/// other search the hosts in which it is found somewhere.
pub open spec fn lets_through_spec(
    search_is_empty: bool,
    in_name: Option<i64>,
    in_destination: Option<i64>,
    in_aliases: Option<i64>,
) -> bool {
    search_is_empty || in_name is Some || in_destination is Some || in_aliases is Some
}

/// Whether `search` lets the host with this name, destination and line of
/// aliases through.
pub open spec fn shows(
    name: Seq<char>,
    destination: Seq<char>,
    aliases: Seq<char>,
    search: Seq<char>,
) -> bool {
    lets_through_spec(
        search.len() == 0,
        fuzzy_score(name, search),
        fuzzy_score(destination, search),
        fuzzy_score(aliases, search),
    )
}

/// Decides from the scores of a search whether it lets a host through.
pub fn lets_through(
    search_is_empty: bool,
    in_name: Option<i64>,
    in_destination: Option<i64>,
    in_aliases: Option<i64>,
) -> (b: bool)
    ensures
        b == lets_through_spec(search_is_empty, in_name, in_destination, in_aliases),
{
    search_is_empty || in_name.is_some() || in_destination.is_some() || in_aliases.is_some()
}

/// Tells whether `search` lets the host with this name, destination and
/// line of aliases through.
pub fn matches_search(name: &str, destination: &str, aliases: &str, search: &str) -> (b: bool)
    ensures
        b == shows(name@, destination@, aliases@, search@),
{
    lets_through(
        search.is_empty(),
        fuzzy_match(name, search),
        fuzzy_match(destination, search),
        fuzzy_match(aliases, search),
    )
}

/// Whether `search` lets `host` through.
pub open spec fn host_shows(host: HostRecord, search: Seq<char>) -> bool {
    shows(host.name, host.destination, joined(host.aliases, seq![',', ' ']), search)
}

/// The hosts of a list that `search` lets through, in the order of the
/// list.
pub open spec fn shown_hosts(all: Seq<HostRecord>, search: Seq<char>) -> Seq<HostRecord> {
    all.filter(|host: HostRecord| host_shows(host, search))
}

/// Copies of the hosts of `all` that `search` lets through, in the order of
/// the list.
pub fn filter_hosts(all: &Vec<Host>, search: &str) -> (shown: Vec<Host>)
    ensures
        records(shown@) == shown_hosts(records(all@), search@),
{
    let ghost lets = |host: HostRecord| host_shows(host, search@);
    let mut shown: Vec<Host> = Vec::new();
    let mut i: usize = 0;
    proof {
        reveal(Seq::filter);
        assert(records(all@).take(0).filter(lets) == Seq::<HostRecord>::empty());
    }
    while i < all.len()
        invariant
            i <= all.len(),
            lets == |host: HostRecord| host_shows(host, search@),
            records(shown@) == records(all@).take(i as int).filter(lets),
        decreases all.len() - i,
    {
        let host = &all[i];
        let aliases = host.aliases_line();
        proof {
            let before = records(all@).take(i as int);
            assert(before.push(host@) == records(all@).take(i + 1));
            before.lemma_filter_push(host@, lets);
        }
        if matches_search(host.name.as_str(), host.destination.as_str(), aliases.as_str(), search) {
            let ghost kept = shown@;
            let copy = host.duplicate();
            shown.push(copy);
            assert(records(shown@) == records(kept).push(copy@));
        }
        i += 1;
    }
    assert(records(all@).take(all.len() as int) == records(all@));
    shown
}

/// The largest of the widths; zero where there is none.
pub open spec fn largest_spec(widths: Seq<usize>) -> usize
    decreases widths.len(),
{
    if widths.len() == 0 {
        0
    } else {
        let before = largest_spec(widths.drop_last());
        if widths.last() > before {
            widths.last()
        } else {
            before
        }
    }
}

/// The displayed widths of a list of texts.
pub open spec fn widths_of(list: Seq<Seq<char>>) -> Seq<usize> {
    list.map_values(|text: Seq<char>| display_width(text) as usize)
}

/// The largest of the widths; zero where there is none.
pub fn largest(widths: &Vec<usize>) -> (r: usize)
    ensures
        r == largest_spec(widths@),
{
    let mut r: usize = 0;
    let mut i: usize = 0;
    while i < widths.len()
        invariant
            i <= widths.len(),
            r == largest_spec(widths@.take(i as int)),
        decreases widths.len() - i,
    {
        proof {
            assert(widths@.take(i + 1).drop_last() == widths@.take(i as int));
        }
        if widths[i] > r {
            r = widths[i];
        }
        i += 1;
    }
    assert(widths@.take(widths.len() as int) == widths@);
    r
}

/// The displayed width of the widest of the texts; zero where there is
/// none.
pub fn widest(list: &Vec<String>) -> (r: usize)
    ensures
        r == largest_spec(widths_of(texts(list@))),
{
    let mut widths: Vec<usize> = Vec::new();
    let mut i: usize = 0;
    while i < list.len()
        invariant
            i <= list.len(),
            widths@ == widths_of(texts(list@)).take(i as int),
        decreases list.len() - i,
    {
        widths.push(text_width(list[i].as_str()));
        i += 1;
    }
    assert(widths_of(texts(list@)).take(list.len() as int) == widths_of(texts(list@)));
    largest(&widths)
}

/// The width of a column for texts of the given width: one more than the
/// width, for the padding. The largest column has 65535 cells, and a width
/// beyond that counts as none.
pub open spec fn padded_spec(width: usize) -> u16 {
    if width < 0xffff {
        (width + 1) as u16
    } else if width == 0xffff {
        0xffff
    } else {
        1
    }
}

/// The width of a column for texts of the given width.
pub fn padded(width: usize) -> (r: u16)
    ensures
        r == padded_spec(width),
{
    if width < 0xffff {
        (width + 1) as u16
    } else if width == 0xffff {
        0xffff
    } else {
        1
    }
}

/// The text shown for a value that may be missing: the value, or nothing.
pub open spec fn shown(value: Option<Seq<char>>) -> Seq<char> {
    match value {
        Some(text) => text,
        None => Seq::empty(),
    }
}

/// The cells of the row of a host: name, aliases in one line, user,
/// destination and port, and the proxy command where it is asked for.
pub open spec fn row_spec(host: HostRecord, with_proxy: bool) -> Seq<Seq<char>> {
    let cells = seq![
        host.name,
        joined(host.aliases, seq![',', ' ']),
        shown(host.user),
        host.destination,
        shown(host.port),
    ];
    if with_proxy {
        cells.push(shown(host.proxy_command))
    } else {
        cells
    }
}

/// The line that shows a forwarding.
pub open spec fn forward_line(forward: LocalForwardView) -> Seq<char> {
    forward.local_port + " -> "@ + forward.remote_host + ":"@ + forward.remote_port
}

/// The lines that show the forwardings of a host: one line for each, or a
/// line that says that there is none.
pub open spec fn forward_lines_spec(host: HostRecord) -> Seq<Seq<char>> {
    if host.local_forwards.len() == 0 {
        seq!["No LocalForward defined"@]
    } else {
        host.local_forwards.map_values(|forward: LocalForwardView| forward_line(forward))
    }
}

/// A copy of the text of a value that may be missing.
fn text_or_nothing(value: &Option<String>) -> (r: String)
    ensures
        r@ == shown(crate::ssh::optional_text(*value)),
{
    match value {
        Some(text) => text.clone(),
        None => String::new(),
    }
}

/// The cells of the row of `host` in the table.
pub fn row(host: &Host, with_proxy: bool) -> (cells: Vec<String>)
    ensures
        texts(cells@) == row_spec(host@, with_proxy),
{
    let mut cells: Vec<String> = Vec::new();
    cells.push(host.name.clone());
    cells.push(host.aliases_line());
    cells.push(text_or_nothing(&host.user));
    cells.push(host.destination.clone());
    cells.push(text_or_nothing(&host.port));
    if with_proxy {
        cells.push(text_or_nothing(&host.proxy_command));
    }
    assert(texts(cells@) == row_spec(host@, with_proxy));
    cells
}

/// The lines that show the forwardings of `host`.
pub fn forward_lines(host: &Host) -> (lines: Vec<String>)
    ensures
        texts(lines@) == forward_lines_spec(host@),
{
    let mut lines: Vec<String> = Vec::new();
    if host.local_forwards.len() == 0 {
        lines.push(String::from_str("No LocalForward defined"));
        assert(texts(lines@) == forward_lines_spec(host@));
        return lines;
    }
    let mut i: usize = 0;
    while i < host.local_forwards.len()
        invariant
            i <= host.local_forwards.len(),
            host.local_forwards.len() > 0,
            texts(lines@) == forward_lines_spec(host@).take(i as int),
        decreases host.local_forwards.len() - i,
    {
        let forward = &host.local_forwards[i];
        let mut line = forward.local_port.clone();
        line.append(" -> ");
        line.append(forward.remote_host.as_str());
        line.append(":");
        line.append(forward.remote_port.as_str());
        let ghost before = lines@;
        lines.push(line);
        proof {
            assert(line@ == forward_line(forward@));
            assert(texts(lines@) == texts(before).push(line@));
            assert(forward_lines_spec(host@).take(i + 1) == forward_lines_spec(host@).take(
                i as int,
            ).push(line@));
        }
        i += 1;
    }
    assert(forward_lines_spec(host@).take(host.local_forwards.len() as int) == forward_lines_spec(
        host@,
    ));
    lines
}

/// How many columns the table has.
pub open spec fn column_count(with_proxy: bool) -> int {
    if with_proxy {
        6
    } else {
        5
    }
}

/// The cells of one column of the table for a list of hosts.
pub open spec fn column_spec(hosts: Seq<HostRecord>, index: int, with_proxy: bool) -> Seq<
    Seq<char>,
> {
    hosts.map_values(|host: HostRecord| row_spec(host, with_proxy)[index])
}

/// The widths of the columns of the table. The first column is as wide as
/// the widest name among the hosts that are shown, and every other column
/// as wide as its widest cell among all hosts; each has one cell more for
/// the padding.
pub open spec fn column_widths_spec(
    shown: Seq<HostRecord>,
    all: Seq<HostRecord>,
    with_proxy: bool,
) -> Seq<u16> {
    Seq::new(
        column_count(with_proxy) as nat,
        |index: int|
            padded_spec(
                largest_spec(
                    widths_of(
                        column_spec(
                            if index == 0 {
                                shown
                            } else {
                                all
                            },
                            index,
                            with_proxy,
                        ),
                    ),
                ),
            ),
    )
}

/// The cells of the column `index` of the table for `hosts`.
fn column(hosts: &Vec<Host>, index: usize, with_proxy: bool) -> (cells: Vec<String>)
    requires
        index < column_count(with_proxy),
    ensures
        texts(cells@) == column_spec(records(hosts@), index as int, with_proxy),
{
    let mut cells: Vec<String> = Vec::new();
    let mut i: usize = 0;
    while i < hosts.len()
        invariant
            i <= hosts.len(),
            index < column_count(with_proxy),
            texts(cells@) == column_spec(records(hosts@), index as int, with_proxy).take(i as int),
        decreases hosts.len() - i,
    {
        let mut cells_of_row = row(&hosts[i], with_proxy);
        let ghost whole = cells_of_row@;
        assert(texts(whole).len() == column_count(with_proxy));
        let cell = cells_of_row.swap_remove(index);
        let ghost before = cells@;
        cells.push(cell);
        proof {
            assert(cell@ == texts(whole)[index as int]);
            assert(texts(cells@) == texts(before).push(cell@));
            assert(column_spec(records(hosts@), index as int, with_proxy).take(i + 1)
                == column_spec(records(hosts@), index as int, with_proxy).take(i as int).push(
                cell@,
            ));
        }
        i += 1;
    }
    assert(column_spec(records(hosts@), index as int, with_proxy).take(hosts.len() as int)
        == column_spec(records(hosts@), index as int, with_proxy));
    cells
}

/// The widths of the columns of the table, given the hosts that are shown
/// and all hosts.
pub fn column_widths(shown: &Vec<Host>, all: &Vec<Host>, with_proxy: bool) -> (widths: Vec<u16>)
    ensures
        widths@ == column_widths_spec(records(shown@), records(all@), with_proxy),
{
    let count: usize = if with_proxy {
        6
    } else {
        5
    };
    let mut widths: Vec<u16> = Vec::new();
    let mut index: usize = 0;
    while index < count
        invariant
            index <= count,
            count == column_count(with_proxy),
            widths@ == column_widths_spec(records(shown@), records(all@), with_proxy).take(
                index as int,
            ),
        decreases count - index,
    {
        let cells = if index == 0 {
            column(shown, index, with_proxy)
        } else {
            column(all, index, with_proxy)
        };
        widths.push(padded(widest(&cells)));
        index += 1;
    }
    assert(column_widths_spec(records(shown@), records(all@), with_proxy).take(count as int)
        == column_widths_spec(records(shown@), records(all@), with_proxy));
    widths
}

} // verus!
