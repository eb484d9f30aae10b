//! How the keys move the selection in the list of hosts.
//!
//! The list shows `count` hosts, of which at most one is selected. The
//! functions here decide what a key press does; they read no key and draw
//! nothing.

use vstd::prelude::*;

verus! {

/// How many rows a page key moves the selection.
pub const PAGE_ROWS: usize = 21;

/// A key as the list sees it.
#[derive(Clone, Copy, Debug, PartialEq, Eq, Structural)]
pub enum Key {
    Esc,
    Down,
    Up,
    Home,
    End,
    PageDown,
    PageUp,
    Enter,
    Char(char),
    Other,
}

/// What a key press asks for.
#[derive(Clone, Copy, Debug, PartialEq, Eq, Structural)]
pub enum Decision {
    /// Leave the list.
    Stop,
    /// Select the row with this index.
    Select(usize),
    /// The key is taken and changes nothing.
    Nothing,
    /// Act on the host in the row with this index.
    Launch(usize),
    /// The key is not for the list; it goes to the search field.
    Pass,
}

/// The row after the selected one; the first row after the last one, and
/// where nothing is selected or the list is empty.
pub open spec fn next_row(selected: Option<usize>, count: usize) -> usize {
    match selected {
        Some(row) => if count == 0 || row >= count - 1 {
            0
        } else {
            (row + 1) as usize
        },
        None => 0,
    }
}

/// The row before the selected one; the last row before the first one, and
/// the first row where nothing is selected or the list is empty.
pub open spec fn previous_row(selected: Option<usize>, count: usize) -> usize {
    match selected {
        Some(row) => if count == 0 {
            0
        } else if row == 0 {
            (count - 1) as usize
        } else {
            (row - 1) as usize
        },
        None => 0,
    }
}

/// The row a page further down, and the last row where the list ends
/// before that.
pub open spec fn page_down_row(selected: Option<usize>, count: usize) -> usize {
    let row: int = match selected {
        Some(row) => row as int,
        None => 0,
    };
    let last: int = if count == 0 {
        0
    } else {
        count - 1
    };
    if row + PAGE_ROWS <= last {
        (row + PAGE_ROWS) as usize
    } else {
        last as usize
    }
}

/// The row a page further up, and the first row where the list begins
/// before that.
pub open spec fn page_up_row(selected: Option<usize>) -> usize {
    match selected {
        Some(row) => if row >= PAGE_ROWS {
            (row - PAGE_ROWS) as usize
        } else {
            0
        },
        None => 0,
    }
}

/// The selection after the list has changed to `count` rows: a selection
/// behind the end moves to the last row, and to the first row of an empty
/// list. Any other selection stays, which `None` says.
pub open spec fn settled_row(selected: Option<usize>, count: usize) -> Option<usize> {
    let row = match selected {
        Some(row) => row,
        None => 0,
    };
    if row >= count {
        Some(
            if count == 0 {
                0
            } else {
                (count - 1) as usize
            },
        )
    } else {
        None
    }
}

/// What a key pressed together with the control key asks for: `c` leaves,
/// `j` and `n` go down, `k` and `p` go up, and any other key is handled as
/// if the control key were not held.
pub open spec fn control_decision(key: Key, selected: Option<usize>, count: usize) -> Option<
    Decision,
> {
    match key {
        Key::Char(c) => if c == 'c' {
            Some(Decision::Stop)
        } else if c == 'j' || c == 'n' {
            Some(Decision::Select(next_row(selected, count)))
        } else if c == 'k' || c == 'p' {
            Some(Decision::Select(previous_row(selected, count)))
        } else {
            None
        },
        _ => None,
    }
}

/// What a key asks for when the control key plays no part.
pub open spec fn plain_decision(key: Key, selected: Option<usize>, count: usize) -> Decision {
    match key {
        Key::Esc => Decision::Stop,
        Key::Down => Decision::Select(next_row(selected, count)),
        Key::Up => Decision::Select(previous_row(selected, count)),
        Key::Home => Decision::Select(0),
        Key::End => if count == 0 {
            Decision::Nothing
        } else {
            Decision::Select((count - 1) as usize)
        },
        Key::PageDown => Decision::Select(page_down_row(selected, count)),
        Key::PageUp => Decision::Select(page_up_row(selected)),
        Key::Enter => {
            let row = match selected {
                Some(row) => row,
                None => 0,
            };
            if row >= count {
                Decision::Nothing
            } else {
                Decision::Launch(row)
            }
        },
        _ => Decision::Pass,
    }
}

/// What a key press asks for.
pub open spec fn decision(key: Key, control: bool, selected: Option<usize>, count: usize) -> Decision {
    if control && control_decision(key, selected, count) is Some {
        control_decision(key, selected, count)->0
    } else {
        plain_decision(key, selected, count)
    }
}

/// The row to select when the selection moves down by one.
pub fn next(selected: Option<usize>, count: usize) -> (row: usize)
    ensures
        row == next_row(selected, count),
        count > 0 ==> row < count,
{
    match selected {
        Some(row) => if count == 0 || row >= count - 1 {
            0
        } else {
            row + 1
        },
        None => 0,
    }
}

/// The row to select when the selection moves up by one.
pub fn previous(selected: Option<usize>, count: usize) -> (row: usize)
    ensures
        row == previous_row(selected, count),
{
    match selected {
        Some(row) => if count == 0 {
            0
        } else if row == 0 {
            count - 1
        } else {
            row - 1
        },
        None => 0,
    }
}

/// The row to select when the selection moves down by a page.
pub fn page_down(selected: Option<usize>, count: usize) -> (row: usize)
    ensures
        row == page_down_row(selected, count),
{
    let row = match selected {
        Some(row) => row,
        None => 0,
    };
    let last = if count == 0 {
        0
    } else {
        count - 1
    };
    if row <= last && last - row >= PAGE_ROWS {
        row + PAGE_ROWS
    } else {
        last
    }
}

/// The row to select when the selection moves up by a page.
pub fn page_up(selected: Option<usize>) -> (row: usize)
    ensures
        row == page_up_row(selected),
{
    match selected {
        Some(row) => if row >= PAGE_ROWS {
            row - PAGE_ROWS
        } else {
            0
        },
        None => 0,
    }
}

/// The row to select after the list has changed, if the selection has to
/// move.
pub fn settle(selected: Option<usize>, count: usize) -> (row: Option<usize>)
    ensures
        row == settled_row(selected, count),
{
    let current = match selected {
        Some(row) => row,
        None => 0,
    };
    if current >= count {
        Some(
            if count == 0 {
                0
            } else {
                count - 1
            },
        )
    } else {
        None
    }
}

/// Decides what a key press does, given whether the control key is held,
/// the selected row and the number of rows.
pub fn decide(key: Key, control: bool, selected: Option<usize>, count: usize) -> (r: Decision)
    ensures
        r == decision(key, control, selected, count),
{
    if control {
        match key {
            Key::Char(c) => {
                if c == 'c' {
                    return Decision::Stop;
                } else if c == 'j' || c == 'n' {
                    return Decision::Select(next(selected, count));
                } else if c == 'k' || c == 'p' {
                    return Decision::Select(previous(selected, count));
                }
            },
            _ => {},
        }
    }
    match key {
        Key::Esc => Decision::Stop,
        Key::Down => Decision::Select(next(selected, count)),
        Key::Up => Decision::Select(previous(selected, count)),
        Key::Home => Decision::Select(0),
        Key::End => if count == 0 {
            Decision::Nothing
        } else {
            Decision::Select(count - 1)
        },
        Key::PageDown => Decision::Select(page_down(selected, count)),
        Key::PageUp => Decision::Select(page_up(selected)),
        Key::Enter => {
            let row = match selected {
                Some(row) => row,
                None => 0,
            };
            if row >= count {
                Decision::Nothing
            } else {
                Decision::Launch(row)
            }
        },
        _ => Decision::Pass,
    }
}

} // verus!
