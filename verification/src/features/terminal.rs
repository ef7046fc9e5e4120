//! Metrics of programs that run in a terminal: its size and, as far as it
//! can be told, the name of the terminal emulator.

use vstd::prelude::*;

use crate::text::{blank, is_blank, opt_text};
use crate::value::{JsonMap, JsonValue, JsonView, Number};

verus! {

/// What is known of the terminal.
#[derive(Debug)]
pub struct TerminalInfo {
    /// Columns and rows, if standard output is a terminal.
    pub size: Option<(u16, u16)>,
    /// The name of the terminal emulator.
    pub emulator: Option<String>,
}

/// The metrics with what is known of the terminal. What is not known is left
/// out.
pub open spec fn with_terminal(
    metrics: Map<Seq<char>, JsonView>,
    terminal: TerminalInfo,
) -> Map<Seq<char>, JsonView> {
    let sized = match terminal.size {
        Some((columns, rows)) => metrics.insert(
            "terminal_columns"@,
            JsonView::Number(Number::PosInt(columns as u64)),
        ).insert("terminal_rows"@, JsonView::Number(Number::PosInt(rows as u64))),
        None => metrics,
    };
    match terminal.emulator {
        Some(name) => sized.insert("terminal_emulator"@, JsonView::String(name@)),
        None => sized,
    }
}

/// Appends `terminal_columns`, `terminal_rows` and `terminal_emulator`.
/// What is not known is left out, not filled in.
pub fn append_terminal_data(metrics: &mut JsonMap, terminal: &TerminalInfo)
    ensures
        final(metrics)@ == with_terminal(old(metrics)@, *terminal),
{
    match terminal.size {
        Some((columns, rows)) => {
            metrics.insert("terminal_columns", JsonValue::unsigned(columns as u64));
            metrics.insert("terminal_rows", JsonValue::unsigned(rows as u64));
        },
        None => {},
    }
    match &terminal.emulator {
        Some(name) => metrics.insert("terminal_emulator", JsonValue::string(name.as_str())),
        None => {},
    }
}

/// The first of the variables that is set, unless it is blank.
pub open spec fn emulator_of(
    term_program: Option<Seq<char>>,
    colorterm: Option<Seq<char>>,
    term: Option<Seq<char>>,
) -> Option<Seq<char>> {
    let first = if term_program is Some {
        term_program
    } else if colorterm is Some {
        colorterm
    } else {
        term
    };
    if first is Some && !is_blank(first->0) {
        first
    } else {
        None
    }
}

/// The name of the terminal emulator, as far as the environment tells it:
/// `TERM_PROGRAM`, else `COLORTERM`, else `TERM`. None if the first that is
/// set is blank.
pub fn detected_terminal_emulator(
    term_program: Option<String>,
    colorterm: Option<String>,
    term: Option<String>,
) -> (r: Option<String>)
    ensures
        opt_text(r) == emulator_of(opt_text(term_program), opt_text(colorterm), opt_text(term)),
{
    let first = match term_program {
        Some(name) => Some(name),
        None => match colorterm {
            Some(name) => Some(name),
            None => term,
        },
    };
    match first {
        Some(name) => if blank(name.as_str()) {
            None
        } else {
            Some(name)
        },
        None => None,
    }
}

} // verus!
