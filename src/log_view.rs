//! What is shown of the build's output while it runs and when it fails.

use vstd::prelude::*;

use crate::probe::join;
use crate::text::{decimal_usize, int_text};
use vstd::string::StringExecFns;

verus! {

/// Number of output lines kept visible on an interactive terminal.
pub const TERMINAL_CHILD_STDOUT_LINE_COUNT: usize = 15;

/// `k` line breaks.
pub open spec fn line_breaks(k: nat) -> Seq<char> {
    Seq::new(k, |_i: int| '\n')
}

/// Each line followed by a line break.
pub open spec fn lines_text(lines: Seq<Seq<char>>) -> Seq<char>
    decreases lines.len(),
{
    if lines.len() == 0 {
        Seq::empty()
    } else {
        lines_text(lines.drop_last()) + lines.last() + seq!['\n']
    }
}

/// The last `window` lines of the log (all of them if it is shorter).
pub open spec fn last_lines(log: Seq<Seq<char>>, window: nat) -> Seq<Seq<char>> {
    if log.len() <= window {
        log
    } else {
        log.subrange(log.len() - window, log.len() as int)
    }
}

/// Moves the cursor up over the window and clears from there down.
pub open spec fn window_rewind(window: nat) -> Seq<char> {
    "\x1b["@ + int_text(window as int) + "A\r\x1b[0J"@
}

/// The window redrawn in place: the cursor goes back up, the last lines of
/// the log are printed, and blank lines fill the rest of the window.
pub open spec fn redrawn_window(log: Seq<Seq<char>>, window: nat) -> Seq<char> {
    window_rewind(window) + lines_text(last_lines(log, window)) + if log.len() < window {
        line_breaks((window - log.len()) as nat)
    } else {
        Seq::empty()
    }
}

fn line_breaks_exec(k: usize) -> (r: String)
    ensures
        r@ == line_breaks(k as nat),
{
    let mut r = String::new();
    let mut i: usize = 0;
    while i < k
        invariant
            i <= k,
            r@ =~= line_breaks(i as nat),
        decreases k - i,
    {
        r.append("\n");
        proof {
            reveal_strlit("\n");
        }
        i = i + 1;
    }
    r
}

/// The text that reserves room for the window before the build starts.
pub fn window_reserve(window: usize) -> (r: String)
    ensures
        r@ == line_breaks(window as nat),
{
    line_breaks_exec(window)
}

/// The text that rewinds over the window once the build has ended.
pub fn window_clear(window: usize) -> (r: String)
    ensures
        r@ == window_rewind(window as nat),
{
    let mut r = "\x1b[".to_owned();
    let n = decimal_usize(window);
    r.append(n.as_str());
    r.append("A\r\x1b[0J");
    r
}

/// The window redrawn over the lines received so far.
pub fn redraw_window(log: &Vec<String>, window: usize) -> (r: String)
    ensures
        r@ == redrawn_window(log.deep_view(), window as nat),
{
    let mut r = window_clear(window);
    let start: usize = if log.len() <= window {
        0
    } else {
        log.len() - window
    };
    let ghost shown = last_lines(log.deep_view(), window as nat);
    let ghost head = r@;
    let mut i: usize = start;
    while i < log.len()
        invariant
            start <= i <= log.len(),
            shown == log.deep_view().subrange(start as int, log.len() as int),
            r@ == head + lines_text(log.deep_view().subrange(start as int, i as int)),
        decreases log.len() - i,
    {
        proof {
            assert(log.deep_view().subrange(start as int, i + 1).drop_last() =~= log.deep_view().subrange(start as int, i as int));
            reveal_strlit("\n");
        }
        r.append(log[i].as_str());
        r.append("\n");
        proof {
            assert(r@ =~= head + lines_text(log.deep_view().subrange(start as int, i as int)) + log.deep_view()[i as int] + seq!['\n']);
        }
        i = i + 1;
    }
    if log.len() < window {
        let pad = line_breaks_exec(window - log.len());
        r.append(pad.as_str());
    }
    proof {
        if log.len() <= window {
            assert(log.deep_view().subrange(0, log.len() as int) =~= log.deep_view());
        }
    }
    r
}

/// What is printed for one new line of the build's output, given the lines
/// received before it: on a terminal the window is redrawn, elsewhere the
/// line is mirrored as it is.
pub fn line_output(log: &Vec<String>, line: &str, window: usize, is_terminal: bool) -> (r: String)
    ensures
        is_terminal ==> r@ == redrawn_window(log.deep_view(), window as nat),
        !is_terminal ==> r@ == line@ + seq!['\n'],
{
    if is_terminal {
        redraw_window(log, window)
    } else {
        let mut r = line.to_owned();
        r.append("\n");
        proof {
            reveal_strlit("\n");
        }
        r
    }
}

/// The full logs, printed when an interactive build fails.
pub open spec fn failure_dump(log: Seq<Seq<char>>, stderr: Seq<char>) -> Seq<char> {
    "\x1b[1;31m------ STDOUT ------\x1b[0m\n"@ + join(log, "\n"@) + "\n"@
        + "\x1b[1;31m------ STDERR ------\x1b[0m\n"@ + stderr + "\n"@
}

/// The text dumped when a build fails: both full logs on a terminal, where
/// they were not shown in full; nothing elsewhere, where they already were.
pub fn failure_output(log: &Vec<String>, stderr: &str, is_terminal: bool) -> (r: Option<String>)
    ensures
        is_terminal <==> r is Some,
        r matches Some(t) ==> t@ == failure_dump(log.deep_view(), stderr@),
{
    if !is_terminal {
        return None;
    }
    let mut joined = String::new();
    let mut i: usize = 0;
    while i < log.len()
        invariant
            i <= log.len(),
            joined@ == join(log.deep_view().subrange(0, i as int), "\n"@),
        decreases log.len() - i,
    {
        proof {
            assert(log.deep_view().subrange(0, i + 1).drop_last() =~= log.deep_view().subrange(0, i as int));
        }
        if i > 0 {
            joined.append("\n");
        } else {
            assert(joined@ =~= Seq::<char>::empty());
        }
        joined.append(log[i].as_str());
        proof {
            if i == 0 {
                assert(joined@ =~= log.deep_view().subrange(0, 1)[0]);
            } else {
                assert(joined@ =~= join(log.deep_view().subrange(0, i as int), "\n"@) + "\n"@ + log.deep_view().subrange(0, i + 1).last());
            }
        }
        i = i + 1;
    }
    assert(log.deep_view().subrange(0, log.len() as int) =~= log.deep_view());
    let mut r = "\x1b[1;31m------ STDOUT ------\x1b[0m\n".to_owned();
    r.append(joined.as_str());
    r.append("\n");
    r.append("\x1b[1;31m------ STDERR ------\x1b[0m\n");
    r.append(stderr);
    r.append("\n");
    Some(r)
}

} // verus!
