//! The commands used most, for a table of the ten at the top.

use crate::frequency::{first_entries, is_top_ranking};
use crate::history::{commands, item_views, HistoryItem};
use crate::tally::{rank_commands, ranked_view};
use crate::text::{chars_of, string_of, texts};
use vstd::prelude::*;

verus! {

/// The number of rows of the table.
pub const TOP_COUNT: usize = 10;

/// The width to which the table shortens a command.
pub const DISPLAY_WIDTH: usize = 38;

/// The command as the table shows it: whole where it has room, and else cut
/// to one character less than the width, with an ellipsis behind.
pub open spec fn display_text(cmd: Seq<char>) -> Seq<char> {
    if cmd.len() > DISPLAY_WIDTH {
        cmd.take(DISPLAY_WIDTH - 1).push('\u{2026}')
    } else {
        cmd
    }
}

/// The commands of `history`, each as the history holds it.
pub fn all_commands(history: &[HistoryItem]) -> (cmds: Vec<String>)
    ensures
        texts(cmds@) == commands(item_views(history@)),
{
    let mut cmds: Vec<String> = Vec::new();
    let mut i: usize = 0;
    while i < history.len()
        invariant
            i <= history@.len(),
            cmds@.len() == i,
            forall|j: int| 0 <= j < i ==> (#[trigger] cmds@[j])@ == history@[j].cmd@,
        decreases history@.len() - i,
    {
        cmds.push(history[i].cmd.clone());
        i += 1;
    }
    cmds
}

/// The ten commands used most, each with the number of its uses: the most
/// frequent first, and the one met first before the others of its frequency.
/// Changes of directory count like any other command.
pub fn top_commands(history: &[HistoryItem]) -> (top: Vec<(String, usize)>)
    ensures
        is_top_ranking(commands(item_views(history@)), ranked_view(top@), TOP_COUNT as nat),
{
    let cmds = all_commands(history);
    let mut ranked = rank_commands(cmds.as_slice());
    let ghost full = ranked_view(ranked@);
    if ranked.len() > TOP_COUNT {
        ranked.truncate(TOP_COUNT);
    }
    assert(ranked_view(ranked@) =~= first_entries(full, TOP_COUNT as nat));
    ranked
}

/// The command as the table shows it.
pub fn display_command(cmd: &str) -> (shown: String)
    ensures
        shown@ == display_text(cmd@),
{
    let chars = chars_of(cmd);
    if chars.len() > DISPLAY_WIDTH {
        let mut cut: Vec<char> = Vec::new();
        let mut i: usize = 0;
        while i < DISPLAY_WIDTH - 1
            invariant
                i <= DISPLAY_WIDTH - 1 < chars@.len(),
                cut@ == chars@.take(i as int),
            decreases DISPLAY_WIDTH - 1 - i,
        {
            cut.push(chars[i]);
            i += 1;
        }
        cut.push('\u{2026}');
        let shown = string_of(&cut, 0, cut.len());
        shown
    } else {
        let shown = string_of(&chars, 0, chars.len());
        shown
    }
}

} // verus!
