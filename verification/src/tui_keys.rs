//! What a key pressed in the terminal UI does to the table of tasks.

use vstd::prelude::*;

verus! {

/// The key of a key press, as far as the UI tells keys apart.
#[derive(Debug, Clone, Copy, PartialEq, Eq, Structural)]
pub enum KeyCodeInput {
    Char(char),
    Esc,
    Up,
    Down,
    Home,
    End,
    Other,
}

/// A key press: the key, and whether Control, and no other modifier, was held.
#[derive(Debug, Clone, Copy, PartialEq, Eq, Structural)]
pub struct KeyInput {
    pub code: KeyCodeInput,
    pub control: bool,
}

/// How the selected row of the table moves.
#[derive(Debug, Clone, Copy, PartialEq, Eq, Structural)]
pub enum TableMove {
    Stay,
    Previous,
    Next,
    First,
    Last,
}

/// What becomes of following the newest task: kept as it is, set, or set to whether the
/// selection is on the last row once it has moved.
#[derive(Debug, Clone, Copy, PartialEq, Eq, Structural)]
pub enum AutoScroll {
    Keep,
    To(bool),
    AtLastRow,
}

/// What the UI does on a key press: stop, move the selection, change following the newest
/// task, save the tasks.
#[derive(Debug, Clone, Copy, PartialEq, Eq, Structural)]
pub struct TuiAction {
    pub quit: bool,
    pub table_move: TableMove,
    pub auto_scroll: AutoScroll,
    pub save: bool,
}

/// The action that does nothing.
pub open spec fn no_action() -> TuiAction {
    TuiAction { quit: false, table_move: TableMove::Stay, auto_scroll: AutoScroll::Keep, save: false }
}

/// What a key press does: `q`, Escape and Control-`c` stop the UI; Up, Down, Home and End
/// move the selection, where Up and Home stop following the newest task, End starts it, and
/// after Down it is followed where the last row is selected; `s` saves the tasks; any
/// other key does nothing.
pub open spec fn spec_tui_action(k: KeyInput) -> TuiAction {
    match k.code {
        KeyCodeInput::Char(c) => if c == 'q' || (c == 'c' && k.control) {
            TuiAction { quit: true, ..no_action() }
        } else if c == 's' {
            TuiAction { save: true, ..no_action() }
        } else {
            no_action()
        },
        KeyCodeInput::Esc => TuiAction { quit: true, ..no_action() },
        KeyCodeInput::Up => TuiAction {
            table_move: TableMove::Previous,
            auto_scroll: AutoScroll::To(false),
            ..no_action()
        },
        KeyCodeInput::Down => TuiAction {
            table_move: TableMove::Next,
            auto_scroll: AutoScroll::AtLastRow,
            ..no_action()
        },
        KeyCodeInput::Home => TuiAction {
            table_move: TableMove::First,
            auto_scroll: AutoScroll::To(false),
            ..no_action()
        },
        KeyCodeInput::End => TuiAction {
            table_move: TableMove::Last,
            auto_scroll: AutoScroll::To(true),
            ..no_action()
        },
        KeyCodeInput::Other => no_action(),
    }
}

/// What the key press `k` does.
pub fn tui_action(k: &KeyInput) -> (res: TuiAction)
    ensures
        res == spec_tui_action(*k),
{
    let none = TuiAction {
        quit: false,
        table_move: TableMove::Stay,
        auto_scroll: AutoScroll::Keep,
        save: false,
    };
    match k.code {
        KeyCodeInput::Char(c) => {
            if c == 'q' || (c == 'c' && k.control) {
                TuiAction { quit: true, ..none }
            } else if c == 's' {
                TuiAction { save: true, ..none }
            } else {
                none
            }
        },
        KeyCodeInput::Esc => TuiAction { quit: true, ..none },
        KeyCodeInput::Up => TuiAction {
            table_move: TableMove::Previous,
            auto_scroll: AutoScroll::To(false),
            ..none
        },
        KeyCodeInput::Down => TuiAction {
            table_move: TableMove::Next,
            auto_scroll: AutoScroll::AtLastRow,
            ..none
        },
        KeyCodeInput::Home => TuiAction {
            table_move: TableMove::First,
            auto_scroll: AutoScroll::To(false),
            ..none
        },
        KeyCodeInput::End => TuiAction {
            table_move: TableMove::Last,
            auto_scroll: AutoScroll::To(true),
            ..none
        },
        KeyCodeInput::Other => none,
    }
}

/// The selection `selected` is on the last of `len` rows; never where there are none.
pub fn at_last_row(selected: Option<usize>, len: usize) -> (res: bool)
    ensures
        res == (len > 0 && selected == Some((len - 1) as usize)),
{
    match len.checked_sub(1) {
        Some(last) => selected == Some(last),
        None => false,
    }
}

/// Whether the newest task is followed after the action `a`, where it was followed before
/// (`auto_scroll`) and the selection, once moved, is on the last row (`at_last`).
pub fn auto_scroll_after(a: &TuiAction, auto_scroll: bool, at_last: bool) -> (res: bool)
    ensures
        res == match a.auto_scroll {
            AutoScroll::Keep => auto_scroll,
            AutoScroll::To(b) => b,
            AutoScroll::AtLastRow => at_last,
        },
{
    match a.auto_scroll {
        AutoScroll::Keep => auto_scroll,
        AutoScroll::To(b) => b,
        AutoScroll::AtLastRow => at_last,
    }
}

/// A key that stops the UI does nothing else, and only `s` saves.
pub proof fn lemma_quit_does_nothing_else(k: KeyInput)
    ensures
        spec_tui_action(k).quit ==> spec_tui_action(k).table_move == TableMove::Stay
            && !spec_tui_action(k).save && spec_tui_action(k).auto_scroll == AutoScroll::Keep,
        spec_tui_action(k).save <==> k.code == KeyCodeInput::Char('s'),
{
}

} // verus!
